use grade::layout::{add_rule_row, find_larger_rows, plan_layout, Layout};

fn cells(values: &[&str]) -> Vec<String> {
    values.iter().map(|v| v.to_string()).collect()
}

fn table(rows: usize) -> Vec<Vec<String>> {
    (0..rows).map(|i| vec![format!("name {}", i), format!("value {}", i)]).collect()
}

#[test]
fn thirteen_rows_stay_in_one_column() {
    match plan_layout(table(13)) {
        Layout::Single(rows) => assert_eq!(rows, table(13)),
        Layout::TwoColumn { .. } => panic!("thirteen rows were split"),
    }
    match plan_layout(table(0)) {
        Layout::Single(rows) => assert_eq!(rows, table(0)),
        Layout::TwoColumn { .. } => panic!("an empty table was split"),
    }
}

#[test]
fn fourteen_rows_are_split_seven_to_seven() {
    match plan_layout(table(14)) {
        Layout::TwoColumn { left, right } => {
            assert_eq!(left, table(14)[7..].to_vec());
            assert_eq!(right, table(14)[..7].to_vec());
        }
        Layout::Single(_) => panic!("fourteen rows were not split"),
    }
}

#[test]
fn fifteen_rows_are_split_seven_to_eight() {
    match plan_layout(table(15)) {
        Layout::TwoColumn { left, right } => {
            assert_eq!(right.len(), 7);
            assert_eq!(left.len(), 8);
            assert_eq!(left, table(15)[7..].to_vec());
            assert_eq!(right, table(15)[..7].to_vec());
        }
        Layout::Single(_) => panic!("fifteen rows were not split"),
    }
}

#[test]
fn a_wide_row_puts_the_rule_into_the_facing_row() {
    let mut rows = table(14);
    rows[2][0] = "a name of twenty-seven chars".to_string();
    assert!(rows[2][0].chars().count() > 26);
    rows[9][0] = "abcdefghijklmnopqrstuvwxyza".to_string();
    assert_eq!(rows[9][0].chars().count(), 27);
    match plan_layout(rows.clone()) {
        Layout::TwoColumn { left, right } => {
            let mut expected_left = rows[7..].to_vec();
            let mut expected_right = rows[..7].to_vec();
            expected_left[2][0].push_str(" \\rule{80pt}{0pt}");
            expected_right[2][0].push_str(" \\rule{80pt}{0pt}");
            assert_eq!(left, expected_left);
            assert_eq!(right, expected_right);
        }
        Layout::Single(_) => panic!("fourteen rows were not split"),
    }
}

#[test]
fn a_wide_row_in_a_single_column_gets_no_rule() {
    let mut rows = table(5);
    rows[1][0] = "abcdefghijklmnopqrstuvwxyza".to_string();
    match plan_layout(rows.clone()) {
        Layout::Single(kept) => assert_eq!(kept, rows),
        Layout::TwoColumn { .. } => panic!("five rows were split"),
    }
}

#[test]
fn larger_rows_are_those_with_more_than_26_characters_in_the_first_cell() {
    let rows = vec![
        cells(&["abcdefghijklmnopqrstuvwxyz", "x"]),
        cells(&["abcdefghijklmnopqrstuvwxyza", "x"]),
        cells(&[]),
        cells(&["short", "abcdefghijklmnopqrstuvwxyzabcdefghijklmnopqrstuvwxyz"]),
        cells(&["µµµµµµµµµµµµµµµµµµµµµµµµµµ"]),
        cells(&["µµµµµµµµµµµµµµµµµµµµµµµµµµµ"]),
    ];
    assert_eq!(find_larger_rows(&rows), vec![1, 5]);
    assert_eq!(find_larger_rows(&Vec::new()), Vec::<usize>::new());
}

#[test]
fn the_rule_goes_behind_the_first_cell_of_the_listed_rows() {
    let mut rows = vec![cells(&["a", "b"]), cells(&["c", "d"]), cells(&[]), cells(&["e"])];
    add_rule_row(&mut rows, vec![3, 0, 2, 9]);
    assert_eq!(
        rows,
        vec![
            cells(&["a \\rule{80pt}{0pt}", "b"]),
            cells(&["c", "d"]),
            cells(&[]),
            cells(&["e \\rule{80pt}{0pt}"]),
        ]
    );
}
