use grade::SheetError;

#[test]
fn every_error_is_reported_with_its_job() {
    let mismatch = SheetError::AnchorCountMismatch {
        labels: vec!["Properties".to_string(), "Unit".to_string()],
        expected: 2,
        found: vec![(0, 1), (3, 0), (12, 4)],
    };
    assert_eq!(
        mismatch.describe("rigid"),
        "rigid: found 3 anchors for the 2 labels Properties, Unit"
    );
    assert_eq!(
        SheetError::MissingValue { row: 10, col: 0, product: None }.describe("rigid"),
        "rigid: the cell in row 10, column 0 is empty"
    );
    assert_eq!(
        SheetError::MissingValue { row: 6, col: 2, product: Some("BIOPLAST 800".to_string()) }
            .describe("rigid"),
        "rigid: the cell in row 6, column 2 is empty, a value of the product BIOPLAST 800"
    );
    assert_eq!(
        SheetError::MalformedBlock { len: 7, block: 3, label: None }.describe("flex"),
        "flex: 7 values cannot be cut into groups of 3"
    );
    assert_eq!(
        SheetError::MalformedBlock { len: 7, block: 3, label: Some("Properties".to_string()) }
            .describe("flex"),
        "flex: 7 values cannot be cut into groups of 3, the values of the category Properties"
    );
    assert_eq!(
        SheetError::CountMismatch { expected: 3, found: 2 }.describe("flex"),
        "flex: 2 entries where 3 are needed"
    );
    assert_eq!(
        SheetError::ExternalToolFailure.describe(""),
        ": the document could not be rendered or compiled"
    );
}
