use calamine::{DataType, Range};
use grade::composer::{Composed, CONTENTS_DISCLAIMER, FILL, LOGO, PAGE_DISCLAIMER};
use grade::job::{MissingPolicy, SheetData};
use grade::page::{compile_outcome, markup_or_failure, render, Page};
use grade::{ConfigXlsx, PdfFile, SheetError};
use latex::{DocumentClass, Element, PreambleElement};

fn cells(values: &[&str]) -> Vec<String> {
    values.iter().map(|v| v.to_string()).collect()
}

fn sheet(rows: &[&[&str]]) -> Range<DataType> {
    let width = rows.iter().map(|row| row.len()).max().unwrap_or(0);
    let mut range = Range::new((0, 0), (rows.len() as u32 - 1, width as u32 - 1));
    for (r, row) in rows.iter().enumerate() {
        for (c, text) in row.iter().enumerate() {
            if !text.is_empty() {
                range.set_value((r as u32, c as u32), DataType::String(text.to_string()));
            }
        }
    }
    range
}

fn file(products: &[&str], categories: &[&str], parameters: &[&str]) -> PdfFile {
    PdfFile::from_values(
        "sheet".to_string(),
        "output/".to_string(),
        "sources/sheet.xlsx".to_string(),
        "Overview".to_string(),
        cells(products),
        cells(categories),
        cells(parameters),
    )
}

fn grid() -> Range<DataType> {
    sheet(&[
        &["Cat", "h", ""],
        &["Name", "v11", ""],
        &["Unit", "v21", ""],
        &["Prod", "5%", ""],
        &["Other", "", ""],
    ])
}

fn body(page: &Page) -> Vec<Element> {
    page.document().iter().cloned().collect()
}

fn preamble(page: &Page) -> Vec<PreambleElement> {
    page.document().preamble.iter().cloned().collect()
}

fn user(text: &str) -> Element {
    Element::UserDefined(text.to_string())
}

fn logo() -> Element {
    user("\\begin{flushleft}\n\\includegraphics[scale=0.20]{biotec}\n\\hfill\\tiny Last Updated \\today\n\\end{flushleft}")
}

fn table() -> Element {
    let markup = [
        "\\begin{tabularx}\n",
        "{\\textwidth}{X l }\\rowcolor{color_title}Cat &  \\\\\n",
        "\\textbf{Name} & \\textbf{Target Value} & \\textbf{Unit} \\\\\n",
        "Name & Prod & v11 \\\\\n\\arrayrulecolor{line_color}\\hline\n",
        "Unit & 5\\% & v21 \\\\\n\\arrayrulecolor{line_color}\\hline\n",
        "\n\\end{tabularx}",
    ]
    .concat();
    Element::Environment("center".to_string(), vec![markup])
}

fn contents(items: &str) -> Vec<Element> {
    vec![
        logo(),
        user(&format!(
            "\\begin{{flushleft}}\n\\hspace{{1cm}}\\\\\n\\textbf{{Contents}}\\\\\n\\hspace{{5in}}\\\\\n\\begin{{enumerate}}\n{}\n\\end{{enumerate}}\n\\end{{flushleft}}",
            items
        )),
        user("\\vspace*{\\fill}"),
        user(CONTENTS_DISCLAIMER),
        Element::ClearPage,
    ]
}

fn product_page(name: &str, tables: Vec<Element>) -> Vec<Element> {
    let mut page = vec![
        logo(),
        user(&format!(
            "\\begin{{flushleft}}\n\\hspace{{1cm}}\\\\\n\\textbf{{Preliminary Data Sheet}}\\\\\n{}\\\\\n\\hspace{{1cm}}\\\\\n\\end{{flushleft}}",
            name
        )),
    ];
    page.extend(tables);
    page.push(user("\\vspace*{\\fill}"));
    page.push(user(PAGE_DISCLAIMER));
    page.push(Element::ClearPage);
    page
}

fn preamble_of_the_house_style() -> Vec<PreambleElement> {
    let package = |name: &str| PreambleElement::UsePackage { package: name.to_string(), argument: None };
    let line = |text: &str| PreambleElement::UserDefined(text.to_string());
    vec![
        package("tabularx"),
        package("xcolor"),
        package("colortbl"),
        package("geometry"),
        package("paracol"),
        package("graphicx"),
        line("\\geometry{margin=0.8in}"),
        line("\\definecolor{color_title}{RGB}{237,233,230}"),
        line("\\definecolor{font_color}{RGB}{13,64,47}"),
        line("\\definecolor{line_color}{RGB}{215,212,210}"),
        line("\\color{font_color}"),
        line("\\pagenumbering{gobble}"),
        line("\\renewcommand{\\familydefault}{\\sfdefault}"),
        line("\\renewcommand{\\arraystretch}{1.25}"),
        line("\\graphicspath{{../resources//}}"),
        line("\\newcommand\\setItemnumber[1]{\\setcounter{enumi}{\\numexpr#1-1\\relax}}"),
    ]
}

#[test]
fn boilerplate() {
    assert_eq!(LOGO, "\\includegraphics[scale=0.20]{biotec}\n\\hfill\\tiny Last Updated \\today");
    assert_eq!(FILL, "\\vspace*{\\fill}");
    assert!(CONTENTS_DISCLAIMER.starts_with("{\\scriptsize\n        \\textbf{Disclaimer} This information"));
    assert!(CONTENTS_DISCLAIMER.contains("Conditions of Sale and Delivery.\\\\ \n BIOTEC Biologische"));
    assert!(PAGE_DISCLAIMER.contains("Conditions of Sale and Delivery \\\\ \n BIOTEC Biologische"));
    assert!(PAGE_DISCLAIMER.ends_with("D.46446 Emmerich \\hfill \\textbf{T} +49 2822 92510\\qquad \\textbf{W} biotec.de}"));
    assert_eq!(CONTENTS_DISCLAIMER.chars().count(), 866);
    assert_eq!(PAGE_DISCLAIMER.chars().count(), 866);
}

#[test]
fn the_preamble_of_the_house_style() {
    let mut page = Page::new();
    ConfigXlsx::default().preamble(&mut page);
    let entries = preamble(&page);
    assert_eq!(entries, preamble_of_the_house_style());
    assert_eq!(page.document().preamble.author, Some("Biotec".to_string()));
    assert_eq!(page.document().preamble.title, Some("Template".to_string()));
    assert_eq!(page.document().iter().count(), 0);
}

#[test]
fn the_preamble_with_other_colours() {
    let mut config = ConfigXlsx::new();
    config.color_text = vec![-1, 0];
    config.color_tab_line = vec![255];
    config.assets = "img".to_string();
    let mut page = Page::new();
    ConfigXlsx::default().preamble(&mut page);
    config.preamble(&mut page);
    let entries = preamble(&page);
    assert_eq!(entries.len(), 32);
    assert_eq!(entries[..16].to_vec(), preamble_of_the_house_style());
    assert_eq!(
        entries[16],
        PreambleElement::UsePackage { package: "tabularx".to_string(), argument: None }
    );
    assert_eq!(entries[22], PreambleElement::UserDefined("\\geometry{margin=0.84in}".to_string()));
    assert_eq!(entries[23], PreambleElement::UserDefined("\\definecolor{color_title}{RGB}{}".to_string()));
    assert_eq!(entries[24], PreambleElement::UserDefined("\\definecolor{font_color}{RGB}{-1,0}".to_string()));
    assert_eq!(entries[25], PreambleElement::UserDefined("\\definecolor{line_color}{RGB}{255}".to_string()));
    assert_eq!(entries[30], PreambleElement::UserDefined("\\graphicspath{{../img/}}".to_string()));
}

#[test]
fn the_page_of_contents() {
    let mut page = Page::new();
    ConfigXlsx::default().first_page(&mut page, &Some(cells(&["BIOPLAST 800", "BIOPLAST 900"])));
    assert_eq!(
        body(&page),
        contents("\\setItemnumber{2}\n\\item BIOPLAST 800\\\\\n\\setItemnumber{3}\n\\item BIOPLAST 900\\\\\n")
    );
    assert!(page.document().preamble.is_empty());
}

#[test]
fn the_page_of_contents_without_products() {
    let mut page = Page::new();
    ConfigXlsx::default().first_page(&mut page, &None);
    assert_eq!(body(&page), contents("\\item No product Given\\\\\n"));
    let mut empty = Page::new();
    ConfigXlsx::default().first_page(&mut empty, &Some(Vec::new()));
    assert_eq!(body(&empty), contents(""));
}

#[test]
fn the_page_of_contents_counts_beyond_nine() {
    let names: Vec<String> = (0..9).map(|i| format!("grade {}", i)).collect();
    let mut page = Page::new();
    ConfigXlsx::default().first_page(&mut page, &Some(names));
    match &body(&page)[1] {
        Element::UserDefined(text) => {
            assert!(text.contains("\\setItemnumber{9}\n\\item grade 7\\\\\n\\setItemnumber{10}\n\\item grade 8\\\\\n"))
        }
        other => panic!("unexpected element {:?}", other),
    }
}

#[test]
fn the_page_of_a_product() {
    let mut page = Page::new();
    ConfigXlsx::default().first_page(&mut page, &None);
    let result = ConfigXlsx::default().page_blue_print(
        &mut page,
        "Prod".to_string(),
        &cells(&["Cat", "Cat"]),
        &cells(&["Name", "Unit"]),
        &vec![cells(&["Name", "Unit", "v11", "v21"]), cells(&["Name", "Unit", "v11", "v21"]), cells(&["x"])],
        &vec![cells(&["Prod", "5%"]), cells(&["Prod", "5%"])],
        2,
    );
    assert_eq!(result, Ok(()));
    let mut expected = contents("\\item No product Given\\\\\n");
    expected.extend(product_page("Prod", vec![table(), table()]));
    assert_eq!(body(&page), expected);
}

#[test]
fn a_page_with_a_title_without_values_is_not_begun() {
    let titles = cells(&["Cat", "Dog", "Bird"]);
    let names = cells(&["Name", "Unit"]);
    let values = cells(&["Name", "Unit", "v11", "v21"]);
    let product = cells(&["Prod", "5%"]);
    let mut page = Page::new();
    ConfigXlsx::default().first_page(&mut page, &None);
    let before = body(&page);
    let result = ConfigXlsx::default().page_blue_print(
        &mut page,
        "Prod".to_string(),
        &titles,
        &names,
        &vec![values.clone(), values.clone()],
        &vec![product.clone(), product.clone(), product.clone()],
        2,
    );
    assert_eq!(result, Err(SheetError::CountMismatch { expected: 3, found: 2 }));
    assert_eq!(body(&page), before);
    let result = ConfigXlsx::default().page_blue_print(
        &mut page,
        "Prod".to_string(),
        &titles,
        &names,
        &vec![values.clone(), values.clone(), values.clone()],
        &vec![product.clone()],
        2,
    );
    assert_eq!(result, Err(SheetError::CountMismatch { expected: 3, found: 1 }));
    assert_eq!(body(&page), before);
    let result = ConfigXlsx::default().page_blue_print(
        &mut page,
        "Prod".to_string(),
        &titles,
        &names,
        &Vec::new(),
        &Vec::new(),
        2,
    );
    assert_eq!(result, Err(SheetError::CountMismatch { expected: 3, found: 0 }));
    assert_eq!(body(&page), before);
}

#[test]
fn a_page_with_a_malformed_block_is_not_begun() {
    let mut page = Page::new();
    let result = ConfigXlsx::default().page_blue_print(
        &mut page,
        "Prod".to_string(),
        &cells(&["Cat", "Dog", "Bird"]),
        &cells(&["Name", "Unit"]),
        &vec![cells(&["Name", "Unit", "v11", "v21"]), cells(&["a", "b", "c"]), cells(&["x"])],
        &vec![cells(&["Prod", "5%"]), cells(&["Prod", "5%"]), cells(&[])],
        2,
    );
    assert_eq!(
        result,
        Err(SheetError::MalformedBlock { len: 3, block: 2, label: Some("Dog".to_string()) })
    );
    assert_eq!(body(&page), Vec::new());
}

#[test]
fn reading_the_sheet() {
    let pdf_file = file(&["Prod"], &["Cat"], &["Name", "Unit"]);
    let data = pdf_file.read_sheet(&grid(), MissingPolicy::AbortJob).unwrap();
    assert_eq!(data.titles, cells(&["Cat"]));
    assert_eq!(data.parameters, cells(&["Name", "Unit"]));
    assert_eq!(data.listed_products, cells(&["Prod"]));
    assert_eq!(data.product_names, cells(&["Prod"]));
    assert_eq!(data.general_content, vec![cells(&["Name", "Unit", "v11", "v21"])]);
    assert_eq!(data.product_values, vec![vec![cells(&["Prod", "5%"])]]);
    assert_eq!(data.skipped, Vec::<String>::new());
}

#[test]
fn a_product_with_a_missing_value_is_skipped_or_ends_the_job() {
    let pdf_file = file(&["Other", "Prod"], &["Cat"], &["Name", "Unit"]);
    let data = pdf_file.read_sheet(&grid(), MissingPolicy::SkipProduct).unwrap();
    assert_eq!(data.listed_products, cells(&["Prod", "Other"]));
    assert_eq!(data.product_names, cells(&["Prod"]));
    assert_eq!(data.product_values, vec![vec![cells(&["Prod", "5%"])]]);
    assert_eq!(data.skipped, cells(&["Other"]));
    assert_eq!(
        pdf_file.read_sheet(&grid(), MissingPolicy::AbortJob).err(),
        Some(SheetError::MissingValue { row: 4, col: 1, product: Some("Other".to_string()) })
    );
}

#[test]
fn reading_fails_with_the_first_kind_of_anchor_that_does_not_match() {
    let pdf_file = file(&["Prod", "Absent"], &["Cat"], &["Name", "Norm"]);
    assert_eq!(
        pdf_file.read_sheet(&grid(), MissingPolicy::SkipProduct).err(),
        Some(SheetError::AnchorCountMismatch {
            labels: cells(&["Name", "Norm"]),
            expected: 2,
            found: vec![(1, 0)],
        })
    );
    let categories = file(&["Prod", "Absent"], &["Cat", "Dog"], &["Name", "Norm"]);
    assert_eq!(
        categories.read_sheet(&grid(), MissingPolicy::SkipProduct).err(),
        Some(SheetError::AnchorCountMismatch {
            labels: cells(&["Cat", "Dog"]),
            expected: 2,
            found: vec![(0, 0)],
        })
    );
    let products = file(&["Prod", "Absent"], &["Cat"], &["Name"]);
    assert_eq!(
        products.read_sheet(&grid(), MissingPolicy::SkipProduct).err(),
        Some(SheetError::AnchorCountMismatch {
            labels: cells(&["Prod", "Absent"]),
            expected: 2,
            found: vec![(3, 0)],
        })
    );
}

#[test]
fn reading_fails_with_a_missing_category_value() {
    let pdf_file = file(&["Prod"], &["Cat"], &["Name", "Other"]);
    assert_eq!(
        pdf_file.read_sheet(&grid(), MissingPolicy::SkipProduct).err(),
        Some(SheetError::MissingValue { row: 4, col: 1, product: None })
    );
}

#[test]
fn the_whole_document() {
    let pdf_file = file(&["Prod"], &["Cat"], &["Name", "Unit"]);
    let Composed { page, skipped } =
        ConfigXlsx::default().compose(&pdf_file, &grid(), MissingPolicy::AbortJob).unwrap();
    assert_eq!(skipped, Vec::<String>::new());
    let mut expected = contents("\\setItemnumber{2}\n\\item Prod\\\\\n");
    expected.extend(product_page("Prod", vec![table()]));
    assert_eq!(body(&page), expected);
    let entries = preamble(&page);
    assert_eq!(entries, preamble_of_the_house_style());
    assert_eq!(page.document().preamble.author, Some("Biotec".to_string()));
    assert_eq!(page.document().preamble.title, Some("Template".to_string()));
}

#[test]
fn the_document_without_the_skipped_product() {
    let pdf_file = file(&["Other", "Prod"], &["Cat"], &["Name", "Unit"]);
    let composed =
        ConfigXlsx::default().compose(&pdf_file, &grid(), MissingPolicy::SkipProduct).unwrap();
    assert_eq!(composed.skipped, cells(&["Other"]));
    let mut expected = contents(
        "\\setItemnumber{2}\n\\item Prod\\\\\n\\setItemnumber{3}\n\\item Other\\\\\n",
    );
    expected.extend(product_page("Prod", vec![table()]));
    assert_eq!(body(&composed.page), expected);
    assert_eq!(
        ConfigXlsx::default().compose(&pdf_file, &grid(), MissingPolicy::AbortJob).err(),
        Some(SheetError::MissingValue { row: 4, col: 1, product: Some("Other".to_string()) })
    );
}

#[test]
fn a_document_without_parameters_has_no_tables_to_build() {
    let pdf_file = file(&["Prod"], &["Cat"], &[]);
    assert_eq!(
        ConfigXlsx::default().compose(&pdf_file, &grid(), MissingPolicy::AbortJob).err(),
        Some(SheetError::MalformedBlock { len: 0, block: 0, label: Some("Cat".to_string()) })
    );
    let no_products = file(&[], &["Cat"], &[]);
    let composed =
        ConfigXlsx::default().compose(&no_products, &grid(), MissingPolicy::AbortJob).unwrap();
    assert_eq!(body(&composed.page), contents(""));
}

#[test]
fn composing_twice_gives_the_same_document() {
    let pdf_file = file(&["Other", "Prod"], &["Cat"], &["Name", "Unit"]);
    let config = ConfigXlsx::default();
    let first = config.compose(&pdf_file, &grid(), MissingPolicy::SkipProduct).unwrap();
    let second = config.compose(&pdf_file, &grid(), MissingPolicy::SkipProduct).unwrap();
    assert_eq!(first.page.document(), second.page.document());
    assert_eq!(first.skipped, second.skipped);
    assert_eq!(render(&first.page), render(&second.page));
    let one = pdf_file.read_sheet(&grid(), MissingPolicy::SkipProduct).unwrap();
    let two = pdf_file.read_sheet(&grid(), MissingPolicy::SkipProduct).unwrap();
    assert_eq!(one.general_content, two.general_content);
    assert_eq!(one.product_values, two.product_values);
    assert_eq!(
        pdf_file.read_sheet(&grid(), MissingPolicy::AbortJob).err(),
        pdf_file.read_sheet(&grid(), MissingPolicy::AbortJob).err()
    );
}

#[test]
fn typesetting_what_was_read() {
    let data = SheetData {
        titles: cells(&["Cat"]),
        parameters: cells(&["Name", "Unit"]),
        listed_products: cells(&["Prod", "Listed without a page"]),
        product_names: cells(&["Prod"]),
        general_content: vec![cells(&["Name", "Unit", "v11", "v21"])],
        product_values: vec![vec![cells(&["Prod", "5%"])]],
        skipped: Vec::new(),
    };
    let page = ConfigXlsx::default().typeset(&data).unwrap();
    let mut expected = contents(
        "\\setItemnumber{2}\n\\item Prod\\\\\n\\setItemnumber{3}\n\\item Listed without a page\\\\\n",
    );
    expected.extend(product_page("Prod", vec![table()]));
    assert_eq!(body(&page), expected);
    let malformed = SheetData {
        titles: cells(&["Cat"]),
        parameters: cells(&["Name", "Unit"]),
        listed_products: cells(&["Prod"]),
        product_names: cells(&["Prod"]),
        general_content: vec![cells(&["Name", "Unit", "v11"])],
        product_values: vec![vec![cells(&["Prod", "5%"])]],
        skipped: Vec::new(),
    };
    assert_eq!(
        ConfigXlsx::default().typeset(&malformed).err(),
        Some(SheetError::MalformedBlock { len: 3, block: 2, label: Some("Cat".to_string()) })
    );
}

#[test]
fn typesetting_needs_a_name_and_values_for_each_page() {
    let unnamed = SheetData {
        titles: cells(&["Cat"]),
        parameters: cells(&["Name", "Unit"]),
        listed_products: cells(&["Prod"]),
        product_names: cells(&["Prod", "Without values"]),
        general_content: vec![cells(&["Name", "Unit", "v11", "v21"])],
        product_values: vec![vec![cells(&["Prod", "5%"])]],
        skipped: Vec::new(),
    };
    assert_eq!(
        ConfigXlsx::default().typeset(&unnamed).err(),
        Some(SheetError::CountMismatch { expected: 2, found: 1 })
    );
    let without_values = SheetData {
        titles: cells(&["Cat", "Dog"]),
        parameters: cells(&["Name", "Unit"]),
        listed_products: cells(&["Prod"]),
        product_names: cells(&["Prod"]),
        general_content: vec![cells(&["Name", "Unit", "v11", "v21"])],
        product_values: vec![vec![cells(&["Prod", "5%"]), cells(&["Prod", "5%"])]],
        skipped: Vec::new(),
    };
    assert_eq!(
        ConfigXlsx::default().typeset(&without_values).err(),
        Some(SheetError::CountMismatch { expected: 2, found: 1 })
    );
}

#[test]
fn rendering_writes_the_document_out() {
    assert_eq!(
        render(&Page::new()),
        Ok("\\documentclass{article}\n\\begin{document}\n\\end{document}\n".to_string())
    );
    let mut page = Page::new();
    ConfigXlsx::default().first_page(&mut page, &Some(cells(&["Prod"])));
    let markup = render(&page).unwrap();
    assert!(markup.starts_with(
        "\\documentclass{article}\n\\begin{document}\n\\begin{flushleft}\n\\includegraphics"
    ));
    assert!(markup.contains("\\setItemnumber{2}\n\\item Prod\\\\\n"));
    assert!(markup.ends_with("biotec.de}\n\\clearpage\n\\end{document}\n"));
}

#[test]
fn a_new_document_is_an_empty_article() {
    let data = SheetData {
        titles: Vec::new(),
        parameters: Vec::new(),
        listed_products: Vec::new(),
        product_names: Vec::new(),
        general_content: Vec::new(),
        product_values: Vec::new(),
        skipped: Vec::new(),
    };
    let page = ConfigXlsx::default().typeset(&data).unwrap();
    assert_eq!(page.document().class, DocumentClass::Article);
    assert_eq!(body(&page), contents(""));
}

#[test]
fn a_failing_tool_is_an_error_of_its_own() {
    assert_eq!(
        markup_or_failure(Err(failure::err_msg("the printer failed"))),
        Err(SheetError::ExternalToolFailure)
    );
    assert_eq!(markup_or_failure(Ok("x".to_string())), Ok("x".to_string()));
    assert_eq!(compile_outcome(false), Err(SheetError::ExternalToolFailure));
    assert_eq!(compile_outcome(true), Ok(()));
}
