use grade::page::{render, Page};
use grade::tab_creation::{
    add_colored_line, add_empty_rows, build_tabularx, create_content, create_parameters_tabularx,
    create_tabularx, create_title_tabularx, define_column, define_environment, end_line_tab,
    escape,
};
use grade::{AlignTab, SheetError};
use latex::Element;

fn cells(values: &[&str]) -> Vec<String> {
    values.iter().map(|v| v.to_string()).collect()
}

#[test]
fn column_definition_has_one_letter_for_each_further_column() {
    assert_eq!(define_column(3, &AlignTab::L), "X l  l ");
    assert_eq!(define_column(2, &AlignTab::C), "X c ");
    assert_eq!(define_column(4, &AlignTab::R), "X r  r  r ");
    assert_eq!(define_column(1, &AlignTab::R), "X");
    assert_eq!(define_column(0, &AlignTab::R), "X");
}

#[test]
fn end_line_appends_the_row_end() {
    let mut line = "a & b".to_string();
    let ended = end_line_tab(&mut line);
    assert_eq!(line, "a & b \\\\\n");
    assert_eq!(ended, "a & b \\\\\n");
}

#[test]
fn empty_cells_fill_a_row_up() {
    let mut row = "a & b".to_string();
    let filled = add_empty_rows(&mut row, 5, 2);
    assert_eq!(row, "a & b &  &  & ");
    assert_eq!(filled, "a & b &  &  & ");
    let mut full = "a & b".to_string();
    assert_eq!(add_empty_rows(&mut full, 2, 2), "");
    assert_eq!(full, "a & b");
    assert_eq!(add_empty_rows(&mut full, 1, 2), "");
    assert_eq!(full, "a & b");
}

#[test]
fn title_row() {
    assert_eq!(
        create_title_tabularx("Properties".to_string(), 3),
        "\\rowcolor{color_title}Properties &  &  \\\\\n"
    );
    assert_eq!(create_title_tabularx("T".to_string(), 1), "\\rowcolor{color_title}T \\\\\n");
    assert_eq!(create_title_tabularx("T".to_string(), 0), "\\rowcolor{color_title}T \\\\\n");
}

#[test]
fn colored_line() {
    assert_eq!(add_colored_line(), "\\arrayrulecolor{line_color}\\hline\n");
}

#[test]
fn content_rows_are_filled_ended_and_underlined() {
    let rows = vec![cells(&["a", "b", "c"]), cells(&["d", "e"])];
    assert_eq!(
        create_content(rows, 3),
        "a & b & c \\\\\n\\arrayrulecolor{line_color}\\hline\nd & e &  \\\\\n\\arrayrulecolor{line_color}\\hline\n"
    );
    assert_eq!(create_content(Vec::new(), 3), "");
}

#[test]
fn content_is_escaped() {
    let out = create_content(vec![cells(&["a%", "<1 m2"])], 3);
    assert_eq!(
        out,
        "a\\% & \\(<\\) 1 \\(m^2\\) &  \\\\\n\\arrayrulecolor{line_color}\\hline\n"
    );
    assert_eq!(escape("5 μm > 3 µm"), "5 \\(\\mu\\)m \\(>\\)  3 \\(\\mu\\)m");
    assert_eq!(escape("plain"), "plain");
}

#[test]
fn header_row_is_bold_without_dropped_columns_and_with_target_value() {
    let mut parameters = cells(&["Parameters", "Certification", "Unit", "Descriptions", "Standart"]);
    let row = create_parameters_tabularx(&mut parameters, &vec![1, 3], 5);
    assert_eq!(
        parameters,
        cells(&[
            "\\textbf{Parameters}",
            "\\textbf{Target Value}",
            "\\textbf{Unit}",
            "\\textbf{Standart}",
        ])
    );
    assert_eq!(
        row,
        "\\textbf{Parameters} & \\textbf{Target Value} & \\textbf{Unit} & \\textbf{Standart} &  \\\\\n"
    );
}

#[test]
fn header_row_of_nothing_is_the_target_value() {
    let mut parameters = cells(&["A"]);
    let row = create_parameters_tabularx(&mut parameters, &vec![0], 0);
    assert_eq!(parameters, cells(&["\\textbf{Target Value}"]));
    assert_eq!(row, "\\textbf{Target Value} \\\\\n");
}

#[test]
fn header_and_rows_have_the_same_number_of_cells() {
    let raw = cells(&["Density", "Melt", "", "", "g/cm3", "g/10min"]);
    let product = cells(&["1.3", "4"]);
    let (table, dropped) = grade::assembly::clean_content(&raw, &product, 2).unwrap();
    let mut header = cells(&["Parameters", "Certification", "Unit"]);
    create_parameters_tabularx(&mut header, &dropped, 3);
    assert_eq!(dropped, vec![1]);
    assert_eq!(header.len(), 3);
    assert_eq!(table.len(), 2);
    for row in table.iter() {
        assert_eq!(row.len(), header.len());
    }
}

#[test]
fn environment_with_and_without_parameters() {
    assert_eq!(
        define_environment("flushleft".to_string(), "".to_string(), "x".to_string()),
        "\\begin{flushleft}\nx\n\\end{flushleft}"
    );
    assert_eq!(
        define_environment("paracol".to_string(), "2".to_string(), "a\nb".to_string()),
        "\\begin{paracol}{2}\na\nb\n\\end{paracol}"
    );
}

fn single_table() -> String {
    [
        "\\begin{tabularx}\n",
        "{\\textwidth}{X l }\\rowcolor{color_title}Cat &  \\\\\n",
        "\\textbf{Name} & \\textbf{Target Value} & \\textbf{Unit} \\\\\n",
        "Name & Prod & v11 \\\\\n\\arrayrulecolor{line_color}\\hline\n",
        "Unit & 5% & v21 \\\\\n\\arrayrulecolor{line_color}\\hline\n",
        "\n\\end{tabularx}",
    ]
    .concat()
    .replace("5%", "5\\%")
}

#[test]
fn a_short_table_is_one_tabular() {
    let mut parameters = cells(&["Name", "Unit"]);
    let markup = build_tabularx(
        2,
        &"Cat".to_string(),
        &mut parameters,
        &cells(&["Name", "Unit", "v11", "v21"]),
        &cells(&["Prod", "5%"]),
        2,
        &AlignTab::L,
    );
    assert_eq!(markup, Ok(single_table()));
    assert_eq!(
        parameters,
        cells(&["\\textbf{Name}", "\\textbf{Target Value}", "\\textbf{Unit}"])
    );
}

#[test]
fn a_long_table_is_set_in_two_columns() {
    let names: Vec<String> = (0..14).map(|i| format!("n{}", i)).collect();
    let values: Vec<String> = (0..14).map(|i| format!("v{}", i)).collect();
    let mut parameters = cells(&["Name"]);
    let markup = build_tabularx(
        1,
        &"T".to_string(),
        &mut parameters,
        &names,
        &values,
        14,
        &AlignTab::C,
    )
    .unwrap();
    let header = "\\textbf{Name} & \\textbf{Target Value} \\\\\n";
    let rows = |from: usize, to: usize| -> String {
        (from..to)
            .map(|i| format!("n{} & v{} \\\\\n\\arrayrulecolor{{line_color}}\\hline\n", i, i))
            .collect()
    };
    let expected = [
        "\\begin{tabularx}\n{\\textwidth}{X}\\rowcolor{color_title}T \\\\\n\n\\end{tabularx}",
        "\\begin{paracol}{2}\n",
        "\\begin{tabularx}{0.5\\textwidth}\n{X}",
        header,
        &rows(7, 14),
        "\n\\end{tabularx}",
        "\\switchcolumn",
        "\\begin{tabularx}{0.5\\textwidth}\n{X}",
        header,
        &rows(0, 7),
        "\n\\end{tabularx}",
        "\n\\end{paracol}",
    ]
    .concat();
    assert_eq!(markup, expected);
}

#[test]
fn a_table_is_appended_centred() {
    let mut page = Page::new();
    let mut parameters = cells(&["Name", "Unit"]);
    let result = create_tabularx(
        &mut page,
        2,
        &"Cat".to_string(),
        &mut parameters,
        &cells(&["Name", "Unit", "v11", "v21"]),
        &cells(&["Prod", "5%"]),
        2,
        &AlignTab::L,
    );
    assert_eq!(result, Ok(()));
    let elements: Vec<Element> = page.document().iter().cloned().collect();
    assert_eq!(elements, vec![Element::Environment("center".to_string(), vec![single_table()])]);
    let printed = render(&page).unwrap();
    assert!(printed.contains("\\begin{center}\n"));
    assert!(printed.contains(&single_table()));
}

#[test]
fn a_malformed_block_leaves_page_and_header_alone() {
    let mut page = Page::new();
    let mut parameters = cells(&["Name", "Unit"]);
    let result = create_tabularx(
        &mut page,
        2,
        &"Cat".to_string(),
        &mut parameters,
        &cells(&["Name", "Unit", "v11"]),
        &cells(&["Prod", "5%"]),
        2,
        &AlignTab::L,
    );
    assert_eq!(
        result,
        Err(SheetError::MalformedBlock { len: 3, block: 2, label: Some("Cat".to_string()) })
    );
    assert_eq!(page.document().iter().count(), 0);
    assert_eq!(parameters, cells(&["Name", "Unit"]));
}
