use calamine::{DataType, Range};
use grade::assembly::{clean_content, reshape_vector_by_col};
use grade::locator::is_empty_range;
use grade::{PdfFile, TabParameters};

fn cells(values: &[&str]) -> Vec<String> {
    values.iter().map(|v| v.to_string()).collect()
}

fn text(value: &str) -> DataType {
    DataType::String(value.to_string())
}

#[test]
fn mechanical_properties_from_anchor_to_table() {
    let mut grid: Range<DataType> = Range::new((0, 0), (9, 6));
    grid.set_value((5, 2), text("Mechanical Properties"));
    grid.set_value((5, 3), text("first"));
    grid.set_value((5, 4), text("second"));
    grid.set_value((6, 3), text("Tensile"));
    grid.set_value((7, 3), text("25"));
    grid.set_value((8, 3), text("MPa"));
    grid.set_value((6, 4), text("Elongation"));
    grid.set_value((7, 4), text("40"));
    grid.set_value((8, 4), text("%"));
    let file = PdfFile::from_values(
        "mechanics".to_string(),
        "output/".to_string(),
        "sources/mechanics.xlsx".to_string(),
        "Overview".to_string(),
        Vec::new(),
        cells(&["Mechanical Properties"]),
        Vec::new(),
    );

    let anchors = file.search_cells_coordinates(&grid, TabParameters::Category).unwrap();
    assert_eq!(anchors, vec![(5, 2)]);
    let ends = file.get_parameters_range(&grid, &anchors);
    assert_eq!((anchors[0], ends[0]), ((5, 2), (5, 4)));
    assert!(!is_empty_range(anchors[0], ends[0]));

    let offsets = vec![(1, 0), (2, 0), (3, 0)];
    let raw = file.get_parameters_by_id(&grid, &vec![(5, 3)], &vec![(5, 4)], &offsets).unwrap();
    assert_eq!(raw, vec![cells(&["Tensile", "25", "MPa", "Elongation", "40", "%"])]);

    assert_eq!(
        reshape_vector_by_col(cells(&["Tensile", "25", "MPa", "Elongation", "40", "%"]), 3),
        Ok(vec![cells(&["Tensile", "25", "MPa"]), cells(&["Elongation", "40", "%"])])
    );
    let (table, dropped) = clean_content(&raw[0], &cells(&["n/a", "n/a"]), 3).unwrap();
    assert_eq!(
        table,
        vec![cells(&["Tensile", "n/a", "Elongation"]), cells(&["25", "n/a", "40"])]
    );
    assert_eq!(dropped, Vec::<usize>::new());
    let (with_gap, _) = clean_content(&raw[0], &cells(&["n/a", "", "n/a"]), 3).unwrap();
    assert_eq!(
        with_gap,
        vec![cells(&["Tensile", "n/a", "Elongation"]), cells(&["MPa", "n/a", "%"])]
    );
}
