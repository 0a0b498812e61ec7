//! Writes the markup of a table: its columns, its title and header rows, its
//! content and the environments around them.

use vstd::prelude::*;
use crate::assembly::{
    assembled, clean_content, dropped_columns, fits_blocks, is_listed, lemma_dropped_means_empty,
    lemma_kept_rows_width, reshaped, retained, rows_across, with_second,
};
use crate::config_xlsx::AlignTab;
use crate::error::{is_malformed, SheetError};
use crate::layout::{in_two_columns, left_column, plan_layout, right_column, Layout};
use crate::page::{push_element, same_head, ElementModel, Page, PageElement};
use crate::text::{join, joined, repeat, repeated, replace_all, replaced, Text};

verus! {

/// What separates two cells of a row.
pub const CELL_SEPARATOR: &'static str = " & ";

/// What ends a row.
pub const ROW_END: &'static str = " \\\\\n";

/// The line drawn below a row.
pub const COLORED_LINE: &'static str = "\\arrayrulecolor{line_color}\\hline\n";

/// The header of the column that holds the product's values.
pub const TARGET_VALUE_HEADER: &'static str = "\\textbf{Target Value}";

/// The letter that stands for an alignment in a column definition.
pub open spec fn align_letter(align: AlignTab) -> Text {
    match align {
        AlignTab::C => "c"@,
        AlignTab::L => "l"@,
        AlignTab::R => "r"@,
    }
}

/// The column definition of a table of `nb_col` columns: a stretching first
/// column, then one aligned column for each further one.
pub open spec fn column_definition(nb_col: nat, align: AlignTab) -> Text {
    "X"@ + repeated(
        " "@ + align_letter(align) + " "@,
        if nb_col == 0 {
            0
        } else {
            (nb_col - 1) as nat
        },
    )
}

/// The separators that fill a row of `filled` cells up to `nb_col` cells.
pub open spec fn padding(nb_col: nat, filled: nat) -> Text {
    if filled >= nb_col {
        Seq::empty()
    } else {
        repeated(CELL_SEPARATOR@, (nb_col - filled) as nat)
    }
}

/// The title row of a table of `nb_col` columns.
pub open spec fn title_row(title: Text, nb_col: nat) -> Text {
    "\\rowcolor{color_title}"@ + title + padding(nb_col, 1) + ROW_END@
}

/// An environment `name` around `content`, with `parameters` in braces
/// behind its opening unless they are empty.
pub open spec fn environment(name: Text, parameters: Text, content: Text) -> Text {
    if parameters.len() == 0 {
        "\\begin{"@ + name + "}\n"@ + content + "\n\\end{"@ + name + "}"@
    } else {
        "\\begin{"@ + name + "}{"@ + parameters + "}\n"@ + content + "\n\\end{"@ + name + "}"@
    }
}

/// Writes the column definition of a table of `nb_col` columns.
pub fn define_column(nb_col: usize, align: &AlignTab) -> (column_definition: String)
    ensures
        column_definition@ == self::column_definition(nb_col as nat, *align),
{
    let letter = match align {
        AlignTab::C => "c",
        AlignTab::L => "l",
        AlignTab::R => "r",
    };
    let mut unit = " ".to_owned();
    unit.append(letter);
    unit.append(" ");
    let further = if nb_col == 0 {
        0
    } else {
        nb_col - 1
    };
    let mut column_definition = "X".to_owned();
    column_definition.append(repeat(unit.as_str(), further).as_str());
    column_definition
}

/// Ends the row in `line` and returns a copy of it.
pub fn end_line_tab(line: &mut String) -> (ended: String)
    ensures
        final(line)@ == old(line)@ + ROW_END@,
        ended@ == final(line)@,
{
    line.append(ROW_END);
    line.clone()
}

/// Fills the row in `content`, which has `nb_params` cells, up to `nb_rows`
/// cells. Returns a copy of the filled row, or nothing where the row was full.
pub fn add_empty_rows(content: &mut String, nb_rows: usize, nb_params: usize) -> (filled: String)
    ensures
        final(content)@ == old(content)@ + padding(nb_rows as nat, nb_params as nat),
        nb_params >= nb_rows ==> filled@ == Seq::<char>::empty(),
        nb_params < nb_rows ==> filled@ == final(content)@,
{
    if nb_params >= nb_rows {
        return String::new();
    }
    content.append(repeat(CELL_SEPARATOR, nb_rows - nb_params).as_str());
    content.clone()
}

/// Writes the title row of a table of `nb_col` columns.
pub fn create_title_tabularx(title: String, nb_col: usize) -> (row: String)
    ensures
        row@ == title_row(title@, nb_col as nat),
{
    let mut row = "\\rowcolor{color_title}".to_owned();
    row.append(title.as_str());
    add_empty_rows(&mut row, nb_col, 1);
    end_line_tab(&mut row)
}

/// The line drawn below each row.
pub fn add_colored_line() -> (line: String)
    ensures
        line@ == COLORED_LINE@,
{
    COLORED_LINE.to_owned()
}

/// Puts `content` into the environment `name`.
pub fn define_environment(name: String, parameters: String, content: String) -> (out: String)
    ensures
        out@ == environment(name@, parameters@, content@),
{
    let mut out = "\\begin{".to_owned();
    out.append(name.as_str());
    if parameters.as_str().is_empty() {
        out.append("}\n");
    } else {
        out.append("}{");
        out.append(parameters.as_str());
        out.append("}\n");
    }
    out.append(content.as_str());
    out.append("\n\\end{");
    out.append(name.as_str());
    out.append("}");
    out
}

/// One row of a table's content: its cells, filled up to `nb_col` cells,
/// ended, with the line below it.
pub open spec fn content_row(row: Seq<Text>, nb_col: nat) -> Text {
    joined(row, CELL_SEPARATOR@) + padding(nb_col, row.len()) + ROW_END@ + COLORED_LINE@
}

/// The rows of a table's content, one after the other.
pub open spec fn content_rows(rows: Seq<Seq<Text>>, nb_col: nat) -> Text
    decreases rows.len(),
{
    if rows.len() == 0 {
        Seq::empty()
    } else {
        content_rows(rows.drop_last(), nb_col) + content_row(rows.last(), nb_col)
    }
}

/// `text` with the characters that the typesetter reads as commands written
/// out: the percent sign, both forms of the letter mu, the angle brackets and
/// the square metre.
pub open spec fn escaped(text: Text) -> Text {
    let percent = replaced(text, "%"@, "\\%"@);
    let mu = replaced(percent, "μ"@, "\\(\\mu\\)"@);
    let micro = replaced(mu, "µ"@, "\\(\\mu\\)"@);
    let less = replaced(micro, "<"@, "\\(<\\) "@);
    let greater = replaced(less, ">"@, "\\(>\\) "@);
    replaced(greater, "m2"@, "\\(m^2\\)"@)
}

/// The content of a table as markup.
pub open spec fn content_markup(rows: Seq<Seq<Text>>, nb_col: nat) -> Text {
    escaped(content_rows(rows, nb_col))
}

/// Writes `text` with the characters that the typesetter reads as commands
/// written out.
pub fn escape(text: &str) -> (out: String)
    ensures
        out@ == escaped(text@),
{
    let percent = replace_all(text, "%", "\\%");
    let mu = replace_all(percent.as_str(), "μ", "\\(\\mu\\)");
    let micro = replace_all(mu.as_str(), "µ", "\\(\\mu\\)");
    let less = replace_all(micro.as_str(), "<", "\\(<\\) ");
    let greater = replace_all(less.as_str(), ">", "\\(>\\) ");
    replace_all(greater.as_str(), "m2", "\\(m^2\\)")
}

/// Writes the content of a table of `nb_col` columns: each row filled up,
/// ended and underlined, and the whole escaped for the typesetter.
pub fn create_content(clean_content: Vec<Vec<String>>, nb_col: usize) -> (content: String)
    ensures
        content@ == content_markup(clean_content.deep_view(), nb_col as nat),
{
    let ghost rows = clean_content.deep_view();
    let mut content = String::new();
    let mut i: usize = 0;
    while i < clean_content.len()
        invariant
            i <= clean_content.len(),
            rows == clean_content.deep_view(),
            content@ == content_rows(rows.take(i as int), nb_col as nat),
        decreases clean_content.len() - i,
    {
        proof {
            assert(rows.take(i + 1).drop_last() =~= rows.take(i as int));
        }
        content.append(join(&clean_content[i], CELL_SEPARATOR).as_str());
        add_empty_rows(&mut content, nb_col, clean_content[i].len());
        end_line_tab(&mut content);
        content.append(add_colored_line().as_str());
        i += 1;
    }
    proof {
        assert(rows.take(i as int) =~= rows);
    }
    escape(content.as_str())
}

/// A header cell in bold.
pub open spec fn bold(cell: Text) -> Text {
    "\\textbf{"@ + cell + "}"@
}

/// The cells in bold whose position is not among `dropped`, in their order.
pub open spec fn bold_without(cells: Seq<Text>, dropped: Seq<usize>) -> Seq<Text>
    decreases cells.len(),
{
    if cells.len() == 0 {
        Seq::empty()
    } else if dropped.contains((cells.len() - 1) as usize) {
        bold_without(cells.drop_last(), dropped)
    } else {
        bold_without(cells.drop_last(), dropped).push(bold(cells.last()))
    }
}

/// The cells of a table's header: the parameter names in bold, without those
/// at a dropped position, with the header of the product's values as second
/// cell.
pub open spec fn header_cells(parameters: Seq<Text>, dropped: Seq<usize>) -> Seq<Text> {
    with_second(bold_without(parameters, dropped), TARGET_VALUE_HEADER@)
}

/// The header row of a table of `nb_col` columns.
pub open spec fn header_row(parameters: Seq<Text>, dropped: Seq<usize>, nb_col: nat) -> Text {
    let cells = header_cells(parameters, dropped);
    joined(cells, CELL_SEPARATOR@) + padding(nb_col, cells.len()) + ROW_END@
}

/// Writes the header row of a table of `nb_col` columns and leaves its cells
/// in `parameters`: the parameter names in bold, without those at the
/// positions in `useless_col`, with the header of the product's values as
/// second cell.
pub fn create_parameters_tabularx(
    parameters: &mut Vec<String>,
    useless_col: &Vec<usize>,
    nb_col: usize,
) -> (row: String)
    ensures
        final(parameters).deep_view() == header_cells(old(parameters).deep_view(), useless_col@),
        row@ == header_row(old(parameters).deep_view(), useless_col@, nb_col as nat),
{
    let ghost names = parameters.deep_view();
    let mut cells: Vec<String> = Vec::new();
    let mut i: usize = 0;
    while i < parameters.len()
        invariant
            i <= parameters.len(),
            names == parameters.deep_view(),
            cells.deep_view() == bold_without(names.take(i as int), useless_col@),
            cells.len() <= i,
        decreases parameters.len() - i,
    {
        proof {
            assert(names.take(i + 1).drop_last() =~= names.take(i as int));
        }
        if !is_listed(useless_col, i) {
            let mut cell = "\\textbf{".to_owned();
            cell.append(parameters[i].as_str());
            cell.append("}");
            cells.push(cell);
        }
        i += 1;
    }
    proof {
        assert(names.take(i as int) =~= names);
    }
    let ghost kept = cells.deep_view();
    if cells.len() == 0 {
        cells.push(TARGET_VALUE_HEADER.to_owned());
    } else {
        cells.insert(1, TARGET_VALUE_HEADER.to_owned());
    }
    proof {
        assert(cells.deep_view() =~= with_second(kept, TARGET_VALUE_HEADER@));
    }
    let param_size = cells.len();
    let mut row = join(&cells, CELL_SEPARATOR);
    add_empty_rows(&mut row, nb_col, param_size);
    end_line_tab(&mut row);
    *parameters = cells;
    row
}

/// What stands at the head of a table: its width, its column definition and
/// its title row.
pub open spec fn table_head(title: Text, nb_col: nat, align: AlignTab) -> Text {
    "{\\textwidth}"@ + "{"@ + column_definition(nb_col, align) + "}"@ + title_row(title, nb_col)
}

/// One of the two columns of a table set in two columns.
pub open spec fn half_table(
    rows: Seq<Seq<Text>>,
    header: Text,
    nb_col: nat,
    align: AlignTab,
) -> Text {
    environment(
        "tabularx"@,
        "0.5\\textwidth"@,
        "{"@ + column_definition(nb_col, align) + "}"@ + header + content_markup(rows, nb_col),
    )
}

/// The markup of a table with the rows `table` below the header row `header`:
/// one table for up to [`crate::layout::SINGLE_COLUMN_ROWS`] rows, else the title above two
/// tables side by side.
pub open spec fn table_markup(
    table: Seq<Seq<Text>>,
    header: Text,
    title: Text,
    nb_col: nat,
    align: AlignTab,
) -> Text {
    if in_two_columns(table.len()) {
        environment("tabularx"@, Seq::empty(), table_head(title, nb_col, align)) + environment(
            "paracol"@,
            "2"@,
            half_table(left_column(table), header, nb_col, align) + "\\switchcolumn"@
                + half_table(right_column(table), header, nb_col, align),
        )
    } else {
        environment(
            "tabularx"@,
            Seq::empty(),
            table_head(title, nb_col, align) + header + content_markup(table, nb_col),
        )
    }
}

/// The markup of the table of one category for one product.
pub open spec fn tabular(
    nb_col: nat,
    title: Text,
    parameters: Seq<Text>,
    general_content: Seq<Text>,
    product_values: Seq<Text>,
    nb_param: nat,
    align: AlignTab,
) -> Text
    recommends
        nb_param > 0,
{
    table_markup(
        assembled(general_content, product_values, nb_param),
        header_row(parameters, dropped_columns(reshaped(general_content, nb_param)), nb_col),
        title,
        nb_col,
        align,
    )
}

/// Writes one of the two columns of a table set in two columns.
fn create_half_table(
    rows: Vec<Vec<String>>,
    header: &String,
    nb_col: usize,
    align: &AlignTab,
) -> (out: String)
    ensures
        out@ == half_table(rows.deep_view(), header@, nb_col as nat, *align),
{
    let mut content = "{".to_owned();
    content.append(define_column(nb_col, align).as_str());
    content.append("}");
    content.append(header.as_str());
    content.append(create_content(rows, nb_col).as_str());
    define_environment("tabularx".to_owned(), "0.5\\textwidth".to_owned(), content)
}

/// Writes the markup of the table of one category for one product and leaves
/// the header cells in `parameters`. Fails, and changes nothing, where
/// `general_content` cannot be cut into groups of `nb_param`; the error holds
/// the title of the category.
pub fn build_tabularx(
    nb_col: usize,
    title: &String,
    parameters: &mut Vec<String>,
    general_content: &Vec<String>,
    product_values: &Vec<String>,
    nb_param: usize,
    align: &AlignTab,
) -> (result: Result<String, SheetError>)
    ensures
        fits_blocks(general_content.len() as nat, nb_param as nat) ==> result is Ok
            && result->Ok_0@ == tabular(
            nb_col as nat,
            title@,
            old(parameters).deep_view(),
            general_content.deep_view(),
            product_values.deep_view(),
            nb_param as nat,
            *align,
        ) && final(parameters).deep_view() == header_cells(
            old(parameters).deep_view(),
            dropped_columns(reshaped(general_content.deep_view(), nb_param as nat)),
        ),
        !fits_blocks(general_content.len() as nat, nb_param as nat) ==> result is Err
            && is_malformed(
            result->Err_0,
            general_content.len() as nat,
            nb_param as nat,
            title@,
        ) && *final(parameters) == *old(parameters),
{
    let (cleaned_content, useless_col) = match clean_content(
        general_content,
        product_values,
        nb_param,
    ) {
        Ok(cleaned) => cleaned,
        Err(_) => {
            return Err(
                SheetError::MalformedBlock {
                    len: general_content.len(),
                    block: nb_param,
                    label: Some(title.clone()),
                },
            );
        },
    };
    let mut head = "{\\textwidth}".to_owned();
    head.append("{");
    head.append(define_column(nb_col, align).as_str());
    head.append("}");
    head.append(create_title_tabularx(title.clone(), nb_col).as_str());
    let params = create_parameters_tabularx(parameters, &useless_col, nb_col);
    match plan_layout(cleaned_content) {
        Layout::TwoColumn { left, right } => {
            let mut columns = create_half_table(left, &params, nb_col, align);
            columns.append("\\switchcolumn");
            columns.append(create_half_table(right, &params, nb_col, align).as_str());
            let mut markup = define_environment("tabularx".to_owned(), String::new(), head);
            markup.append(
                define_environment("paracol".to_owned(), "2".to_owned(), columns).as_str(),
            );
            Ok(markup)
        },
        Layout::Single(rows) => {
            let mut single_tab = head;
            single_tab.append(params.as_str());
            single_tab.append(create_content(rows, nb_col).as_str());
            Ok(define_environment("tabularx".to_owned(), String::new(), single_tab))
        },
    }
}

/// The element that holds a table: a centred environment with the table's
/// markup as its only line.
pub open spec fn centered(markup: Text) -> ElementModel {
    ElementModel::Environment("center"@, seq![markup])
}

/// Wraps the markup of a table into the element that is appended to a page.
pub fn center(markup: String) -> (element: PageElement)
    ensures
        element@ == centered(markup@),
{
    let mut tabular_content: Vec<String> = Vec::new();
    tabular_content.push(markup);
    proof {
        assert(tabular_content.deep_view() =~= seq![markup@]);
    }
    PageElement::Environment("center".to_owned(), tabular_content)
}

/// Builds the table of one category for one product and appends it, centred,
/// to the body of `page`. The header cells are left in `parameters`. Fails,
/// and changes nothing, where `general_content` cannot be cut into groups of
/// `nb_param`; the error holds the title of the category.
pub fn create_tabularx(
    page: &mut Page,
    nb_col: usize,
    title: &String,
    parameters: &mut Vec<String>,
    general_content: &Vec<String>,
    product_values: &Vec<String>,
    nb_param: usize,
    align: &AlignTab,
) -> (result: Result<(), SheetError>)
    ensures
        fits_blocks(general_content.len() as nat, nb_param as nat) ==> result is Ok
            && final(page).body() == old(page).body().push(
            centered(
                tabular(
                    nb_col as nat,
                    title@,
                    old(parameters).deep_view(),
                    general_content.deep_view(),
                    product_values.deep_view(),
                    nb_param as nat,
                    *align,
                ),
            ),
        ) && same_head(*final(page), *old(page)) && final(parameters).deep_view() == header_cells(
            old(parameters).deep_view(),
            dropped_columns(reshaped(general_content.deep_view(), nb_param as nat)),
        ),
        !fits_blocks(general_content.len() as nat, nb_param as nat) ==> result is Err
            && is_malformed(
            result->Err_0,
            general_content.len() as nat,
            nb_param as nat,
            title@,
        ) && *final(page) == *old(page) && *final(parameters) == *old(parameters),
{
    match build_tabularx(
        nb_col,
        title,
        parameters,
        general_content,
        product_values,
        nb_param,
        align,
    ) {
        Ok(markup) => {
            push_element(page, center(markup));
            Ok(())
        },
        Err(error) => Err(error),
    }
}

/// The header keeps as many parameter names as the table keeps groups, where
/// there is one parameter name for each group.
proof fn lemma_header_keeps_what_table_keeps(
    groups: Seq<Seq<Text>>,
    parameters: Seq<Text>,
    dropped: Seq<usize>,
    upto: nat,
)
    requires
        groups.len() <= usize::MAX,
        parameters.len() == groups.len(),
        dropped == dropped_columns(groups),
        upto <= groups.len(),
    ensures
        bold_without(parameters.take(upto as int), dropped).len() == retained(
            groups.take(upto as int),
        ).len(),
    decreases upto,
{
    if upto > 0 {
        lemma_header_keeps_what_table_keeps(groups, parameters, dropped, (upto - 1) as nat);
        assert(parameters.take(upto as int).drop_last() =~= parameters.take(upto - 1));
        assert(groups.take(upto as int).drop_last() =~= groups.take(upto - 1));
        lemma_dropped_means_empty(groups, (upto - 1) as usize);
    }
}

/// After a table has been assembled, its header and its rows agree: where
/// there is one parameter name for each group of values, the header keeps as
/// many names as the table keeps groups, and with the header of the product's
/// values in second place it has as many cells as every row of the table.
pub proof fn lemma_header_matches_columns(
    raw: Seq<Text>,
    product: Seq<Text>,
    parameters: Seq<Text>,
    block: nat,
)
    requires
        raw.len() <= usize::MAX,
        fits_blocks(raw.len(), block),
        parameters.len() == raw.len() / block,
    ensures
        bold_without(parameters, dropped_columns(reshaped(raw, block))).len() == retained(
            reshaped(raw, block),
        ).len(),
        header_cells(parameters, dropped_columns(reshaped(raw, block))).len() == retained(
            reshaped(raw, block),
        ).len() + 1,
        forall|i: int|
            0 <= i < assembled(raw, product, block).len() ==> (#[trigger] assembled(
                raw,
                product,
                block,
            )[i]).len() == header_cells(parameters, dropped_columns(reshaped(raw, block))).len(),
{
    let groups = reshaped(raw, block);
    let dropped = dropped_columns(groups);
    assert(groups.len() <= raw.len()) by (nonlinear_arith)
        requires
            groups.len() == raw.len() / block,
            block > 0,
    ;
    lemma_header_keeps_what_table_keeps(groups, parameters, dropped, groups.len());
    assert(parameters.take(groups.len() as int) =~= parameters);
    assert(groups.take(groups.len() as int) =~= groups);
    let columns = with_second(retained(groups), product);
    lemma_kept_rows_width(rows_across(columns, columns[0].len()), columns.len());
}

} // verus!
