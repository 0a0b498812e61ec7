use calamine::{DataType, Range};
use grade::locator::is_empty_range;
use grade::sheet::text_at;
use grade::{ConfigXlsx, PdfFile, SheetError, TabParameters};

fn cells(values: &[&str]) -> Vec<String> {
    values.iter().map(|v| v.to_string()).collect()
}

fn sheet(rows: &[&[&str]]) -> Range<DataType> {
    let width = rows.iter().map(|row| row.len()).max().unwrap_or(0);
    if rows.is_empty() || width == 0 {
        return Range::empty();
    }
    let mut range = Range::new((0, 0), (rows.len() as u32 - 1, width as u32 - 1));
    for (r, row) in rows.iter().enumerate() {
        for (c, text) in row.iter().enumerate() {
            if !text.is_empty() {
                range.set_value((r as u32, c as u32), DataType::String(text.to_string()));
            }
        }
    }
    range
}

fn file(products: &[&str], categories: &[&str], parameters: &[&str]) -> PdfFile {
    PdfFile::from_values(
        "sheet".to_string(),
        "output/".to_string(),
        "sources/sheet.xlsx".to_string(),
        "Overview".to_string(),
        cells(products),
        cells(categories),
        cells(parameters),
    )
}

fn overview() -> Range<DataType> {
    sheet(&[
        &["", "Properties", "x", "", "Mechanical Properties", "x", "x", "", "Compostable Certification"],
        &["Parameters", "Density", "Melt flow", "", "Tensile", "Elongation", "Impact", "", "EN 13432"],
        &["Certification", "a", "b", "", "c", "d", "e", "", "f"],
        &["Unit", "g/cm3", "g/10min", "", "MPa", "%", "kJ/m2", "", "-"],
        &["Descriptions", "a", "b", "", "c", "d", "e", "", "f"],
        &["Standart", "ISO 1183", "ISO 1133", "", "ISO 527", "ISO 527", "ISO 179", "", "-"],
        &["BIOPLAST 800", "1.3", "4", "", "25", "40", "n/a", "", "yes"],
    ])
}

#[test]
fn test_search_cells_coordinates() {
    let config_xlsx = ConfigXlsx::default();
    let sheet = overview();
    for pdf_file in config_xlsx.pdf_file.iter() {
        for param in [TabParameters::Parameter, TabParameters::Category, TabParameters::Product] {
            let res = pdf_file.search_cells_coordinates(&sheet, param);
            assert_ne!(res.ok(), None);
        }
    }
}

#[test]
fn anchors_of_the_overview() {
    let pdf_file = PdfFile::default();
    let sheet = overview();
    assert_eq!(
        pdf_file.search_cells_coordinates(&sheet, TabParameters::Category),
        Ok(vec![(0, 1), (0, 4), (0, 8)])
    );
    assert_eq!(
        pdf_file.search_cells_coordinates(&sheet, TabParameters::Parameter),
        Ok(vec![(1, 0), (2, 0), (3, 0), (4, 0), (5, 0)])
    );
    assert_eq!(
        pdf_file.search_cells_coordinates(&sheet, TabParameters::Product),
        Ok(vec![(6, 0)])
    );
}

#[test]
fn anchors_come_row_by_row_whatever_the_order_of_the_labels() {
    let grid = sheet(&[&["", "b", ""], &["c", "", "a"], &["", "d", ""]]);
    let pdf_file = file(&["a", "b", "c", "d"], &[], &[]);
    let found = pdf_file.search_cells_coordinates(&grid, TabParameters::Product).unwrap();
    assert_eq!(found, vec![(0, 1), (1, 0), (1, 2), (2, 1)]);
    let labels = ["a", "b", "c", "d"];
    assert_eq!(found.len(), labels.len());
    for (row, col) in found {
        let text = text_at(&grid, row, col).unwrap();
        assert!(labels.contains(&text.as_str()));
    }
}

#[test]
fn a_missing_label_is_a_count_mismatch() {
    let grid = sheet(&[&["a", "x"], &["", "b"]]);
    let pdf_file = file(&[], &["a", "b", "c"], &[]);
    assert_eq!(
        pdf_file.search_cells_coordinates(&grid, TabParameters::Category),
        Err(SheetError::AnchorCountMismatch {
            labels: cells(&["a", "b", "c"]),
            expected: 3,
            found: vec![(0, 0), (1, 1)],
        })
    );
}

#[test]
fn a_label_found_twice_is_a_count_mismatch() {
    let grid = sheet(&[&["a", "x"], &["a", "b"]]);
    let pdf_file = file(&[], &[], &["a", "b"]);
    assert_eq!(
        pdf_file.search_cells_coordinates(&grid, TabParameters::Parameter),
        Err(SheetError::AnchorCountMismatch {
            labels: cells(&["a", "b"]),
            expected: 2,
            found: vec![(0, 0), (1, 0), (1, 1)],
        })
    );
}

#[test]
fn a_cell_stands_once_for_each_label_it_reads() {
    let grid = sheet(&[&["a", "b"]]);
    let pdf_file = file(&["a", "a", "b"], &[], &[]);
    assert_eq!(
        pdf_file.search_cells_coordinates(&grid, TabParameters::Product),
        Ok(vec![(0, 0), (0, 0), (0, 1)])
    );
}

#[test]
fn no_labels_and_an_empty_sheet() {
    let pdf_file = file(&[], &["a"], &[]);
    assert_eq!(
        pdf_file.search_cells_coordinates(&overview(), TabParameters::Product),
        Ok(Vec::new())
    );
    assert_eq!(
        pdf_file.search_cells_coordinates(&Range::empty(), TabParameters::Category),
        Err(SheetError::AnchorCountMismatch {
            labels: cells(&["a"]),
            expected: 1,
            found: Vec::new(),
        })
    );
}

#[test]
fn numbers_are_found_by_what_they_are_written_as() {
    let mut grid: Range<DataType> = Range::new((0, 0), (1, 1));
    grid.set_value((0, 1), DataType::Int(800));
    grid.set_value((1, 0), DataType::Bool(true));
    let pdf_file = file(&["800", "true"], &[], &[]);
    assert_eq!(
        pdf_file.search_cells_coordinates(&grid, TabParameters::Product),
        Ok(vec![(0, 1), (1, 0)])
    );
}

#[test]
fn a_sheet_that_does_not_begin_at_the_top_left_is_searched_to_its_last_cell() {
    let mut grid: Range<DataType> = Range::new((2, 3), (4, 5));
    grid.set_value((4, 5), DataType::String("a".to_string()));
    grid.set_value((2, 3), DataType::String("b".to_string()));
    let pdf_file = file(&["a", "b"], &[], &[]);
    assert_eq!(
        pdf_file.search_cells_coordinates(&grid, TabParameters::Product),
        Ok(vec![(2, 3), (4, 5)])
    );
}

#[test]
fn block_of_mechanical_properties() {
    let mut grid: Range<DataType> = Range::new((0, 0), (6, 7));
    grid.set_value((5, 2), DataType::String("Mechanical Properties".to_string()));
    grid.set_value((5, 3), DataType::String("Tensile".to_string()));
    grid.set_value((5, 4), DataType::String("Elongation".to_string()));
    grid.set_value((5, 6), DataType::String("far".to_string()));
    let pdf_file = file(&[], &["Mechanical Properties"], &[]);
    let anchors = pdf_file.search_cells_coordinates(&grid, TabParameters::Category).unwrap();
    assert_eq!(anchors, vec![(5, 2)]);
    let ends = pdf_file.get_parameters_range(&grid, &anchors);
    assert_eq!(ends, vec![(5, 4)]);
    assert_eq!((anchors[0], ends[0]), ((5, 2), (5, 4)));
}

#[test]
fn blocks_of_the_overview() {
    let pdf_file = PdfFile::default();
    let grid = overview();
    let ends = pdf_file.get_parameters_range(&grid, &vec![(0, 1), (0, 4), (0, 8)]);
    assert_eq!(ends, vec![(0, 2), (0, 6), (0, 8)]);
}

#[test]
fn a_block_ends_at_its_anchor_or_within_the_sheet() {
    let grid = sheet(&[&["a", "", "x"], &["b", "x", "x"], &["", "", "c"]]);
    let pdf_file = PdfFile::new();
    let anchors = vec![(0, 0), (1, 0), (2, 2), (1, 1), (7, 7), (0, usize::MAX)];
    let ends = pdf_file.get_parameters_range(&grid, &anchors);
    assert_eq!(ends, vec![(0, 0), (1, 2), (2, 2), (1, 2), (7, 7), (0, usize::MAX)]);
    for (anchor, end) in anchors.iter().zip(ends.iter()) {
        assert_eq!(anchor.0, end.0);
        assert!(end.1 >= anchor.1);
        assert!(end.1 == anchor.1 || end.1 <= 2);
    }
    assert_eq!(pdf_file.get_parameters_range(&grid, &Vec::new()), Vec::new());
}

#[test]
fn a_cell_reads_as_its_value_is_written() {
    let mut grid: Range<DataType> = Range::new((0, 0), (1, 2));
    grid.set_value((0, 0), DataType::Float(1.3));
    grid.set_value((0, 1), DataType::Float(25.0));
    grid.set_value((0, 2), DataType::Bool(false));
    grid.set_value((1, 0), DataType::Int(-4));
    grid.set_value((1, 1), DataType::DateTimeIso("2023-01-31".to_string()));
    assert_eq!(text_at(&grid, 0, 0), Some("1.3".to_string()));
    assert_eq!(text_at(&grid, 0, 1), Some("25".to_string()));
    assert_eq!(text_at(&grid, 0, 2), Some("false".to_string()));
    assert_eq!(text_at(&grid, 1, 0), Some("-4".to_string()));
    assert_eq!(text_at(&grid, 1, 1), Some("2023-01-31".to_string()));
    assert_eq!(text_at(&grid, 1, 2), None);
}

#[test]
fn text_at_reads_the_cell_at_the_position() {
    let mut grid: Range<DataType> = Range::new((0, 0), (2, 2));
    grid.set_value((1, 2), DataType::String("Unit".to_string()));
    grid.set_value((2, 0), DataType::Int(42));
    grid.set_value((0, 1), DataType::String(String::new()));
    assert_eq!(text_at(&grid, 1, 2), Some("Unit".to_string()));
    assert_eq!(text_at(&grid, 2, 0), Some("42".to_string()));
    assert_eq!(text_at(&grid, 0, 1), Some(String::new()));
    assert_eq!(text_at(&grid, 2, 1), None);
    assert_eq!(text_at(&grid, 3, 0), None);
    assert_eq!(text_at(&grid, 0, 3), None);
    assert_eq!(text_at(&grid, usize::MAX, 2), None);
    assert_eq!(text_at(&grid, 1, usize::MAX), None);
    assert_eq!(text_at(&Range::empty(), 0, 0), None);
}

#[test]
fn the_search_ends_at_the_bottom_right_cell() {
    let mut grid: Range<DataType> = Range::new((1, 2), (4, 7));
    grid.set_value((4, 7), DataType::String("last".to_string()));
    grid.set_value((1, 7), DataType::String("last".to_string()));
    grid.set_value((4, 2), DataType::String("last".to_string()));
    let pdf_file = file(&["last", "last", "last"], &[], &[]);
    assert_eq!(
        pdf_file.search_cells_coordinates(&grid, TabParameters::Product),
        Err(SheetError::AnchorCountMismatch {
            labels: cells(&["last", "last", "last"]),
            expected: 3,
            found: vec![(1, 7), (1, 7), (1, 7), (4, 2), (4, 2), (4, 2), (4, 7), (4, 7), (4, 7)],
        })
    );
}

#[test]
fn a_block_that_ends_at_its_anchor_is_empty() {
    let grid = sheet(&[&["a", "", "x"], &["b", "x", "x"]]);
    let pdf_file = PdfFile::new();
    let anchors = vec![(0, 0), (1, 0)];
    let ends = pdf_file.get_parameters_range(&grid, &anchors);
    assert!(is_empty_range(anchors[0], ends[0]));
    assert!(!is_empty_range(anchors[1], ends[1]));
    assert!(!is_empty_range((1, 2), (2, 2)));
}
