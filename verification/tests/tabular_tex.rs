use grade::tabular_tex::{begin_section_wo_param, TabularTex};
use grade::AlignTab;

fn cells(values: &[&str]) -> Vec<String> {
    values.iter().map(|v| v.to_string()).collect()
}

#[test]
fn an_empty_table() {
    assert_eq!(
        TabularTex::new().create_tabularx(),
        "\\begin{tabularx}{\\textwidth}{X l X l X l X l X l X l }\n\n\n\\end{tabularx}"
    );
    assert_eq!(
        TabularTex::empty_default(AlignTab::C, 2, "red".to_string(), "blue".to_string())
            .create_tabularx(),
        "\\begin{tabularx}{\\textwidth}{X c X c }\n\n\n\\end{tabularx}"
    );
    assert_eq!(
        TabularTex::empty_default(AlignTab::R, 0, String::new(), String::new()).create_tabularx(),
        "\\begin{tabularx}{\\textwidth}{}\n\n\n\\end{tabularx}"
    );
}

#[test]
fn a_table_with_title_sub_titles_and_rows() {
    let mut table = TabularTex::from(
        "T".to_string(),
        cells(&["a", "b"]),
        vec![cells(&["1", "2"]), cells(&["3"])],
    );
    let expected = [
        "\\begin{tabularx}{\\textwidth}{X l X l X l X l X l X l }\n",
        "\\rowcolor{cyan}{T}  &  &  &  &  & ",
        "\n",
        "\\textbf{a} & \\textbf{b} &  &  &  &  & ",
        "\n",
        "\\\\\\\\",
        "1 & 2 &  &  &  & \\\\\n\\arrayrulecolor{cyan}\\hline\n",
        "3 &  &  &  &  & \\\\\n\\arrayrulecolor{cyan}\\hline\n",
        "\\end{tabularx}",
    ]
    .concat();
    assert_eq!(table.create_tabularx(), expected);
    assert_eq!(table.create_tabularx(), expected);
}

#[test]
fn a_table_with_more_than_six_sub_titles() {
    let names = cells(&["a", "b", "c", "d", "e", "f", "g"]);
    let row = cells(&["1", "2", "3", "4", "5", "6", "7", "8"]);
    let mut table = TabularTex::from("T".to_string(), names, vec![row]);
    let expected = [
        "\\begin{tabularx}{\\textwidth}{X l X l X l X l X l X l X l }\n",
        "\\rowcolor{cyan}{T}  &  &  &  &  &  & ",
        "\n",
        "\\textbf{a} & \\textbf{b} & \\textbf{c} & \\textbf{d} & \\textbf{e} & \\textbf{f} & \\textbf{g} & ",
        "\n",
        "\\\\\\\\",
        "1 & 2 & 3 & 4 & 5 & 6 & 7 & 8\\\\\n\\arrayrulecolor{cyan}\\hline\n",
        "\\end{tabularx}",
    ]
    .concat();
    assert_eq!(table.create_tabularx(), expected);
}

#[test]
fn a_section() {
    assert_eq!(
        begin_section_wo_param("center".to_string(), "x\n".to_string()),
        "\\begin{center}\nx\n\\end{center}"
    );
}
