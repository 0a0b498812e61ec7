//! Puts a document together: the preamble, the page of contents and one page
//! for each product.

use vstd::prelude::*;
use calamine::{DataType, Range};
use crate::assembly::{copy_cells, fits_blocks};
use crate::config_xlsx::{AlignTab, ConfigXlsx, PdfFile, TabParameters};
use crate::error::{is_malformed, SheetError};
use crate::extractor::{block_texts, parameter_blocks, targets_of, texts_at};
use crate::job::{
    block_ends, included_products, lemma_category_values_fit, sheet_outcome, sheet_reads,
    skipped_products, values_of, MissingPolicy, SheetData,
};
use crate::locator::anchors;
use crate::page::{
    push_element, push_preamble, same_head, set_author, set_title, use_package, ElementModel,
    Page, PageElement, PreambleModel,
};
use crate::tab_creation::{
    build_tabularx, center, centered, define_environment, environment, tabular,
};
use crate::text::{decimal, join, joined, signed_decimal, to_decimal, to_signed_decimal, Text};

verus! {

/// The components of a colour, written in base ten.
pub open spec fn color_components(color: Seq<i32>) -> Seq<Text> {
    Seq::new(color.len(), |i: int| signed_decimal(color[i] as int))
}

/// The preamble line that defines the colour `name`.
pub open spec fn color_definition(name: Text, color: Seq<i32>) -> Text {
    "\\definecolor{"@ + name + "}{RGB}{"@ + joined(color_components(color), ","@) + "}"@
}

/// Writes the preamble line that defines the colour `name`.
fn define_color(name: &str, color: &Vec<i32>) -> (line: String)
    ensures
        line@ == color_definition(name@, color@),
{
    let mut components: Vec<String> = Vec::new();
    let mut i: usize = 0;
    while i < color.len()
        invariant
            i <= color.len(),
            components.deep_view() == color_components(color@.take(i as int)),
        decreases color.len() - i,
    {
        let ghost before = components.deep_view();
        components.push(to_signed_decimal(color[i]));
        proof {
            assert(components.deep_view() =~= before.push(signed_decimal(color[i as int] as int)));
        }
        i += 1;
    }
    proof {
        assert(color@.take(i as int) =~= color@);
    }
    let mut line = "\\definecolor{".to_owned();
    line.append(name);
    line.append("}{RGB}{");
    line.append(join(&components, ",").as_str());
    line.append("}");
    line
}

impl ConfigXlsx {
    /// The preamble line that sets the page margin.
    pub open spec fn margin_line(&self) -> Text {
        "\\geometry{margin="@ + self.margin_size@ + "in}"@
    }

    /// The preamble line that tells where the images are.
    pub open spec fn graphics_line(&self) -> Text {
        "\\graphicspath{{../"@ + self.assets@ + "/}}"@
    }

    /// The entries that [`ConfigXlsx::preamble`] adds, in order.
    pub open spec fn preamble_entries(&self) -> Seq<PreambleModel> {
        seq![
            PreambleModel::UsePackage("tabularx"@),
            PreambleModel::UsePackage("xcolor"@),
            PreambleModel::UsePackage("colortbl"@),
            PreambleModel::UsePackage("geometry"@),
            PreambleModel::UsePackage("paracol"@),
            PreambleModel::UsePackage("graphicx"@),
            PreambleModel::UserDefined(self.margin_line()),
            PreambleModel::UserDefined(color_definition("color_title"@, self.color_tab_title@)),
            PreambleModel::UserDefined(color_definition("font_color"@, self.color_text@)),
            PreambleModel::UserDefined(color_definition("line_color"@, self.color_tab_line@)),
            PreambleModel::UserDefined("\\color{font_color}"@),
            PreambleModel::UserDefined("\\pagenumbering{gobble}"@),
            PreambleModel::UserDefined("\\renewcommand{\\familydefault}{\\sfdefault}"@),
            PreambleModel::UserDefined("\\renewcommand{\\arraystretch}{1.25}"@),
            PreambleModel::UserDefined(self.graphics_line()),
            PreambleModel::UserDefined(
                "\\newcommand\\setItemnumber[1]{\\setcounter{enumi}{\\numexpr#1-1\\relax}}"@,
            ),
        ]
    }

    /// Adds to the preamble of `page` the packages, the margin, the three
    /// colours and the fixed commands every data sheet needs, and records
    /// author and title. The body of `page` stays as it is.
    pub fn preamble(&self, page: &mut Page)
        ensures
            final(page).preamble() == old(page).preamble()
                + self.preamble_entries(),
            final(page).author() == Some("Biotec"@),
            final(page).title() == Some("Template"@),
            final(page).body() == old(page).body(),
    {
        use_package(page, "tabularx");
        use_package(page, "xcolor");
        use_package(page, "colortbl");
        use_package(page, "geometry");
        use_package(page, "paracol");
        use_package(page, "graphicx");
        let mut margin = "\\geometry{margin=".to_owned();
        margin.append(self.margin_size.as_str());
        margin.append("in}");
        let def_color_title = define_color("color_title", &self.color_tab_title);
        let def_color_line = define_color("line_color", &self.color_tab_line);
        let def_color_font = define_color("font_color", &self.color_text);
        set_author(page, "Biotec");
        set_title(page, "Template");
        push_preamble(page, margin);
        push_preamble(page, def_color_title);
        push_preamble(page, def_color_font);
        push_preamble(page, def_color_line);
        push_preamble(page, "\\color{font_color}".to_owned());
        push_preamble(page, "\\pagenumbering{gobble}".to_owned());
        push_preamble(page, "\\renewcommand{\\familydefault}{\\sfdefault}".to_owned());
        push_preamble(page, "\\renewcommand{\\arraystretch}{1.25}".to_owned());
        let mut graphics = "\\graphicspath{{../".to_owned();
        graphics.append(self.assets.as_str());
        graphics.append("/}}");
        push_preamble(page, graphics);
        push_preamble(
            page,
            "\\newcommand\\setItemnumber[1]{\\setcounter{enumi}{\\numexpr#1-1\\relax}}".to_owned(),
        );
    }
}

/// The logo with the date of the last update, as it stands at the top of
/// every page.
pub const LOGO: &'static str =
    "\\includegraphics[scale=0.20]{biotec}\n\\hfill\\tiny Last Updated \\today";

/// What stands above the list of products on the page of contents.
pub const CONTENTS_HEAD: &'static str =
    "\\hspace{1cm}\\\\\n\\textbf{Contents}\\\\\n\\hspace{5in}\\\\\n";

/// The only entry of the list of products where no product names are given.
pub const NO_PRODUCT: &'static str = "\\item No product Given\\\\\n";

/// Pushes what follows to the bottom of the page.
pub const FILL: &'static str = "\\vspace*{\\fill}";

/// The disclaimer at the foot of the page of contents.
pub const CONTENTS_DISCLAIMER: &'static str =
    "{\\scriptsize\n        \\textbf{Disclaimer} This information and our technical advice - whether verbal, in writing or by way of trials - are given in good faith but without warranty, and this also applies where proprietary rights of third parties are involved. Our advice does not release you from the obligation to check its validity and to test our products as to their suitability for the intended processes and uses. The application, use and processing of our products and the products manufactured by you on the basis of our technical advice are beyond our control and, therefore, entirely your own responsibility. Our products are sold in accordance with our General Conditions of Sale and Delivery.\\\\ \n BIOTEC Biologische Naturverpackungen GmbH \\& Co. KG · Werner-Heisenberg-Str. 32 · D.46446 Emmerich \\hfill \\textbf{T} +49 2822 92510\\qquad \\textbf{W} biotec.de}";

/// The disclaimer at the foot of a product's page.
pub const PAGE_DISCLAIMER: &'static str =
    "{\\scriptsize\n        \\textbf{Disclaimer} This information and our technical advice - whether verbal, in writing or by way of trials - are given in good faith but without warranty, and this also applies where proprietary rights of third parties are involved. Our advice does not release you from the obligation to check its validity and to test our products as to their suitability for the intended processes and uses. The application, use and processing of our products and the products manufactured by you on the basis of our technical advice are beyond our control and, therefore, entirely your own responsibility. Our products are sold in accordance with our General Conditions of Sale and Delivery \\\\ \n BIOTEC Biologische Naturverpackungen GmbH \\& Co. KG · Werner-Heisenberg-Str. 32 · D.46446 Emmerich \\hfill \\textbf{T} +49 2822 92510\\qquad \\textbf{W} biotec.de}";

/// The logo in its block.
pub open spec fn logo_block() -> Text {
    environment("flushleft"@, Seq::empty(), LOGO@)
}

/// The entry of the list of contents for the product at `position`, counted
/// from zero. The list is numbered from two, the page of contents being the
/// first page.
pub open spec fn contents_item(position: nat, name: Text) -> Text {
    "\\setItemnumber{"@ + decimal(position + 2) + "}\n"@ + "\\item "@ + name + "\\\\\n"@
}

/// The entries of the list of contents for `names`, in order.
pub open spec fn contents_items(names: Seq<Text>) -> Text
    decreases names.len(),
{
    if names.len() == 0 {
        Seq::empty()
    } else {
        contents_items(names.drop_last()) + contents_item(
            (names.len() - 1) as nat,
            names.last(),
        )
    }
}

/// The entries of the list of contents.
pub open spec fn contents_list(product_names: Option<Seq<Text>>) -> Text {
    match product_names {
        Some(names) => contents_items(names),
        None => NO_PRODUCT@,
    }
}

/// The elements of the page of contents.
pub open spec fn contents_page(product_names: Option<Seq<Text>>) -> Seq<ElementModel> {
    seq![
        ElementModel::UserDefined(logo_block()),
        ElementModel::UserDefined(
            environment(
                "flushleft"@,
                Seq::empty(),
                CONTENTS_HEAD@ + environment(
                    "enumerate"@,
                    Seq::empty(),
                    contents_list(product_names),
                ),
            ),
        ),
        ElementModel::UserDefined(FILL@),
        ElementModel::UserDefined(CONTENTS_DISCLAIMER@),
        ElementModel::ClearPage,
    ]
}

/// What stands below the logo on a product's page.
pub open spec fn banner(product_name: Text) -> Text {
    "\\hspace{1cm}\\\\\n\\textbf{Preliminary Data Sheet}\\\\\n"@ + product_name
        + "\\\\\n\\hspace{1cm}\\\\"@
}

/// The tables of a product's page, one element for each title.
pub open spec fn product_tables(
    align: AlignTab,
    titles: Seq<Text>,
    parameters: Seq<Text>,
    general_contents: Seq<Seq<Text>>,
    product_contents: Seq<Seq<Text>>,
    nb_param: nat,
) -> Seq<ElementModel> {
    Seq::new(
        titles.len(),
        |i: int|
            centered(
                tabular(
                    parameters.len(),
                    titles[i],
                    parameters,
                    general_contents[i],
                    product_contents[i],
                    nb_param,
                    align,
                ),
            ),
    )
}

/// The elements of a product's page: logo, banner, tables, disclaimer and a
/// page break.
pub open spec fn product_page(
    align: AlignTab,
    product_name: Text,
    titles: Seq<Text>,
    parameters: Seq<Text>,
    general_contents: Seq<Seq<Text>>,
    product_contents: Seq<Seq<Text>>,
    nb_param: nat,
) -> Seq<ElementModel> {
    seq![
        ElementModel::UserDefined(logo_block()),
        ElementModel::UserDefined(environment("flushleft"@, Seq::empty(), banner(product_name))),
    ] + product_tables(
        align,
        titles,
        parameters,
        general_contents,
        product_contents,
        nb_param,
    ) + seq![
        ElementModel::UserDefined(FILL@),
        ElementModel::UserDefined(PAGE_DISCLAIMER@),
        ElementModel::ClearPage,
    ]
}

/// Whether the first `count` of the flat sequences can each be cut into
/// groups of `block`.
pub open spec fn all_fit(general_contents: Seq<Seq<Text>>, count: nat, block: nat) -> bool {
    forall|i: int| 0 <= i < count ==> fits_blocks((#[trigger] general_contents[i]).len(), block)
}

/// Whether `error` tells of the first category whose values cannot be cut
/// into groups of `block`, with its title.
pub open spec fn first_misfit(
    titles: Seq<Text>,
    general_contents: Seq<Seq<Text>>,
    block: nat,
    error: SheetError,
) -> bool {
    exists|i: int|
        0 <= i < titles.len() && !fits_blocks((#[trigger] general_contents[i]).len(), block)
            && all_fit(general_contents, i as nat, block) && is_malformed(
            error,
            general_contents[i].len(),
            block,
            titles[i],
        )
}

/// Whether `error` tells that there are `found` entries where `expected` are
/// needed.
pub open spec fn is_count_mismatch(error: SheetError, expected: nat, found: nat) -> bool {
    error matches SheetError::CountMismatch { expected: needed, found: given } && needed
        == expected && given == found
}

/// Whether the page of a product can be built: every title has the values of
/// its category and the values of the product, and the values of each
/// category can be cut into groups of `block`.
pub open spec fn page_builds(
    titles: Seq<Text>,
    general_contents: Seq<Seq<Text>>,
    product_contents: Seq<Seq<Text>>,
    block: nat,
) -> bool {
    titles.len() <= general_contents.len() && titles.len() <= product_contents.len() && all_fit(
        general_contents,
        titles.len(),
        block,
    )
}

/// Whether `error` is what building the page of a product fails with: the
/// want of values of the categories, else the want of values of the product,
/// else the first category whose values cannot be cut into groups.
pub open spec fn is_page_error(
    titles: Seq<Text>,
    general_contents: Seq<Seq<Text>>,
    product_contents: Seq<Seq<Text>>,
    block: nat,
    error: SheetError,
) -> bool {
    if general_contents.len() < titles.len() {
        is_count_mismatch(error, titles.len(), general_contents.len())
    } else if product_contents.len() < titles.len() {
        is_count_mismatch(error, titles.len(), product_contents.len())
    } else {
        first_misfit(titles, general_contents, block, error)
    }
}

impl ConfigXlsx {
    /// Appends the page of contents to the body of `page`: the logo, the
    /// numbered list of `product_names`, the disclaimer and a page break.
    /// Where no product names are given, the list has one entry that says
    /// so.
    pub fn first_page(&self, page: &mut Page, product_names: &Option<Vec<String>>)
        ensures
            final(page).body() == old(page).body() + contents_page(
                product_names.deep_view(),
            ),
            same_head(*final(page), *old(page)),
    {
        let image = define_environment("flushleft".to_owned(), String::new(), LOGO.to_owned());
        let mut items = String::new();
        match product_names {
            Some(products) => {
                let ghost names = products.deep_view();
                let mut i: usize = 0;
                while i < products.len()
                    invariant
                        i <= products.len(),
                        names == products.deep_view(),
                        items@ == contents_items(names.take(i as int)),
                    decreases products.len() - i,
                {
                    proof {
                        assert(names.take(i + 1).drop_last() =~= names.take(i as int));
                    }
                    items.append("\\setItemnumber{");
                    items.append(to_decimal(i as u128 + 2).as_str());
                    items.append("}\n");
                    items.append("\\item ");
                    items.append(products[i].as_str());
                    items.append("\\\\\n");
                    i += 1;
                }
                proof {
                    assert(names.take(i as int) =~= names);
                }
            },
            None => {
                items.append(NO_PRODUCT);
            },
        }
        let item_product = define_environment("enumerate".to_owned(), String::new(), items);
        let mut table_of_content = CONTENTS_HEAD.to_owned();
        table_of_content.append(item_product.as_str());
        push_element(page, PageElement::UserDefined(image));
        push_element(
            page,
            PageElement::UserDefined(
                define_environment("flushleft".to_owned(), String::new(), table_of_content),
            ),
        );
        push_element(page, PageElement::UserDefined(FILL.to_owned()));
        push_element(page, PageElement::UserDefined(CONTENTS_DISCLAIMER.to_owned()));
        push_element(page, PageElement::ClearPage);
    }

    /// Appends the page of one product to the body of `page`: the logo, the
    /// banner with `product_name`, one table for each category, the
    /// disclaimer and a page break. Category `i` has the title `titles[i]`,
    /// the flat values `general_contents[i]` and the product's values
    /// `product_contents[i]`; every table has the header `parameters`.
    ///
    /// Fails, and leaves `page` as it is, where a title has no values of its
    /// category or of the product, and where the values of a category cannot
    /// be cut into groups of `nb_param`; the error tells of the first such
    /// category.
    pub fn page_blue_print(
        &self,
        page: &mut Page,
        product_name: String,
        titles: &Vec<String>,
        parameters: &Vec<String>,
        general_contents: &Vec<Vec<String>>,
        product_contents: &Vec<Vec<String>>,
        nb_param: usize,
    ) -> (result: Result<(), SheetError>)
        ensures
            page_builds(
                titles.deep_view(),
                general_contents.deep_view(),
                product_contents.deep_view(),
                nb_param as nat,
            ) ==> result is Ok && final(page).body() == old(page).body() + product_page(
                self.alignment(),
                product_name@,
                titles.deep_view(),
                parameters.deep_view(),
                general_contents.deep_view(),
                product_contents.deep_view(),
                nb_param as nat,
            ) && same_head(*final(page), *old(page)),
            !page_builds(
                titles.deep_view(),
                general_contents.deep_view(),
                product_contents.deep_view(),
                nb_param as nat,
            ) ==> result is Err && is_page_error(
                titles.deep_view(),
                general_contents.deep_view(),
                product_contents.deep_view(),
                nb_param as nat,
                result->Err_0,
            ) && *final(page) == *old(page),
    {
        if general_contents.len() < titles.len() {
            return Err(
                SheetError::CountMismatch {
                    expected: titles.len(),
                    found: general_contents.len(),
                },
            );
        }
        if product_contents.len() < titles.len() {
            return Err(
                SheetError::CountMismatch {
                    expected: titles.len(),
                    found: product_contents.len(),
                },
            );
        }
        let align = self.align();
        let count = titles.len();
        let ghost tables = product_tables(
            align,
            titles.deep_view(),
            parameters.deep_view(),
            general_contents.deep_view(),
            product_contents.deep_view(),
            nb_param as nat,
        );
        let mut markups: Vec<String> = Vec::new();
        let mut i: usize = 0;
        while i < count
            invariant
                i <= count,
                count == titles.len(),
                count <= general_contents.len(),
                count <= product_contents.len(),
                align == self.alignment(),
                tables == product_tables(
                    align,
                    titles.deep_view(),
                    parameters.deep_view(),
                    general_contents.deep_view(),
                    product_contents.deep_view(),
                    nb_param as nat,
                ),
                all_fit(general_contents.deep_view(), i as nat, nb_param as nat),
                markups.len() == i,
                forall|k: int| 0 <= k < i ==> centered((#[trigger] markups[k])@) == tables[k],
            decreases count - i,
        {
            let mut params = copy_cells(parameters);
            proof {
                assert(general_contents.deep_view()[i as int]
                    == general_contents[i as int].deep_view());
            }
            match build_tabularx(
                parameters.len(),
                &titles[i],
                &mut params,
                &general_contents[i],
                &product_contents[i],
                nb_param,
                &align,
            ) {
                Ok(markup) => {
                    markups.push(markup);
                },
                Err(error) => {
                    proof {
                        assert(titles.deep_view()[i as int] == titles[i as int]@);
                    }
                    return Err(error);
                },
            }
            i += 1;
        }
        let ghost start = page.body();
        let ghost head = seq![
            ElementModel::UserDefined(logo_block()),
            ElementModel::UserDefined(
                environment("flushleft"@, Seq::empty(), banner(product_name@)),
            ),
        ];
        let image = define_environment("flushleft".to_owned(), String::new(), LOGO.to_owned());
        push_element(page, PageElement::UserDefined(image));
        let mut intro = "\\hspace{1cm}\\\\\n\\textbf{Preliminary Data Sheet}\\\\\n".to_owned();
        intro.append(product_name.as_str());
        intro.append("\\\\\n\\hspace{1cm}\\\\");
        push_element(
            page,
            PageElement::UserDefined(
                define_environment("flushleft".to_owned(), String::new(), intro),
            ),
        );
        let mut pushed: usize = 0;
        while pushed < count
            invariant
                pushed <= count,
                markups.len() == count,
                tables.len() == count,
                forall|k: int| 0 <= k < count ==> centered((#[trigger] markups[k])@) == tables[k],
                page.body() == start + head + tables.take(pushed as int),
                same_head(*page, *old(page)),
            decreases count - pushed,
        {
            push_element(page, center(markups[pushed].clone()));
            pushed += 1;
        }
        push_element(page, PageElement::UserDefined(FILL.to_owned()));
        push_element(page, PageElement::UserDefined(PAGE_DISCLAIMER.to_owned()));
        push_element(page, PageElement::ClearPage);
        Ok(())
    }
}

/// The pages of the first `count` products, one after the other.
pub open spec fn product_pages(
    align: AlignTab,
    product_names: Seq<Text>,
    titles: Seq<Text>,
    parameters: Seq<Text>,
    general_contents: Seq<Seq<Text>>,
    product_values: Seq<Seq<Seq<Text>>>,
    count: nat,
) -> Seq<ElementModel>
    decreases count,
{
    if count == 0 {
        Seq::empty()
    } else {
        product_pages(
            align,
            product_names,
            titles,
            parameters,
            general_contents,
            product_values,
            (count - 1) as nat,
        ) + product_page(
            align,
            product_names[count - 1],
            titles,
            parameters,
            general_contents,
            product_values[count - 1],
            parameters.len(),
        )
    }
}

/// Whether the page of each of the first `count` products can be built.
pub open spec fn pages_build(
    titles: Seq<Text>,
    parameters: Seq<Text>,
    general_contents: Seq<Seq<Text>>,
    product_values: Seq<Seq<Seq<Text>>>,
    count: nat,
) -> bool {
    forall|p: int|
        0 <= p < count ==> page_builds(
            titles,
            general_contents,
            #[trigger] product_values[p],
            parameters.len(),
        )
}

/// Whether the whole document can be typeset: every product with a page has
/// a name and values, and each page can be built.
pub open spec fn document_builds(
    product_names: Seq<Text>,
    titles: Seq<Text>,
    parameters: Seq<Text>,
    general_contents: Seq<Seq<Text>>,
    product_values: Seq<Seq<Seq<Text>>>,
) -> bool {
    product_names.len() == product_values.len() && pages_build(
        titles,
        parameters,
        general_contents,
        product_values,
        product_names.len(),
    )
}

/// Whether `error` is what typesetting fails with: the want of a name or of
/// values for a product, else the error of the first page that cannot be
/// built.
pub open spec fn is_document_error(
    product_names: Seq<Text>,
    titles: Seq<Text>,
    parameters: Seq<Text>,
    general_contents: Seq<Seq<Text>>,
    product_values: Seq<Seq<Seq<Text>>>,
    error: SheetError,
) -> bool {
    if product_names.len() != product_values.len() {
        is_count_mismatch(error, product_names.len(), product_values.len())
    } else {
        exists|p: int|
            0 <= p < product_names.len() && pages_build(
                titles,
                parameters,
                general_contents,
                product_values,
                p as nat,
            ) && is_page_error(
                titles,
                general_contents,
                #[trigger] product_values[p],
                parameters.len(),
                error,
            )
    }
}

impl ConfigXlsx {
    /// Typesets the document for what was read from a sheet: the preamble,
    /// the page of contents, which lists every product, and a page for each
    /// product that has values, with one group of values in a table for each
    /// parameter name.
    ///
    /// Fails where there are not as many names as products with values, and
    /// where a page cannot be built; the error is that of the first such
    /// page.
    pub fn typeset(&self, data: &SheetData) -> (result: Result<Page, SheetError>)
        ensures
            document_builds(
                data.product_names.deep_view(),
                data.titles.deep_view(),
                data.parameters.deep_view(),
                data.general_content.deep_view(),
                data.product_values.deep_view(),
            ) ==> (result matches Ok(page) && page.preamble() == self.preamble_entries()
                && page.author() == Some("Biotec"@) && page.title() == Some("Template"@)
                && page.body() == contents_page(Some(data.listed_products.deep_view()))
                + product_pages(
                self.alignment(),
                data.product_names.deep_view(),
                data.titles.deep_view(),
                data.parameters.deep_view(),
                data.general_content.deep_view(),
                data.product_values.deep_view(),
                data.product_names.len() as nat,
            )),
            !document_builds(
                data.product_names.deep_view(),
                data.titles.deep_view(),
                data.parameters.deep_view(),
                data.general_content.deep_view(),
                data.product_values.deep_view(),
            ) ==> result is Err && is_document_error(
                data.product_names.deep_view(),
                data.titles.deep_view(),
                data.parameters.deep_view(),
                data.general_content.deep_view(),
                data.product_values.deep_view(),
                result->Err_0,
            ),
    {
        let ghost listed_names = data.listed_products.deep_view();
        let ghost names = data.product_names.deep_view();
        let ghost titles = data.titles.deep_view();
        let ghost parameters = data.parameters.deep_view();
        let ghost general = data.general_content.deep_view();
        let ghost values = data.product_values.deep_view();
        if data.product_names.len() != data.product_values.len() {
            return Err(
                SheetError::CountMismatch {
                    expected: data.product_names.len(),
                    found: data.product_values.len(),
                },
            );
        }
        let mut page = Page::new();
        self.preamble(&mut page);
        let listed = Some(copy_cells(&data.listed_products));
        self.first_page(&mut page, &listed);
        let count = data.product_names.len();
        let mut p: usize = 0;
        while p < count
            invariant
                p <= count,
                count == data.product_names.len(),
                count == data.product_values.len(),
                names == data.product_names.deep_view(),
                titles == data.titles.deep_view(),
                parameters == data.parameters.deep_view(),
                general == data.general_content.deep_view(),
                values == data.product_values.deep_view(),
                pages_build(titles, parameters, general, values, p as nat),
                page.preamble() == self.preamble_entries(),
                page.author() == Some("Biotec"@),
                page.title() == Some("Template"@),
                page.body() == contents_page(Some(listed_names)) + product_pages(
                    self.alignment(),
                    names,
                    titles,
                    parameters,
                    general,
                    values,
                    p as nat,
                ),
            decreases count - p,
        {
            proof {
                assert(values[p as int] == data.product_values[p as int].deep_view());
            }
            match self.page_blue_print(
                &mut page,
                data.product_names[p].clone(),
                &data.titles,
                &data.parameters,
                &data.general_content,
                &data.product_values[p],
                data.parameters.len(),
            ) {
                Ok(()) => {},
                Err(error) => {
                    return Err(error);
                },
            }
            p += 1;
        }
        Ok(page)
    }
}

/// A finished document and the products that were left out of it.
#[derive(Debug)]
pub struct Composed {
    /// The document.
    pub page: Page,
    /// The name of each product that has no page.
    pub skipped: Vec<String>,
}

/// Whether no table can be built for a document although there are tables to
/// build: there are categories and products with a page, but no parameters.
pub open spec fn lacks_parameters(sheet: Range<DataType>, file: PdfFile) -> bool {
    let categories = anchors(sheet, file.labels(TabParameters::Category));
    let products = anchors(sheet, file.labels(TabParameters::Product));
    let ends = block_ends(sheet, categories);
    file.labels(TabParameters::Parameter).len() == 0 && categories.len() > 0 && included_products(
        sheet,
        products,
        categories,
        ends,
    ).len() > 0
}

/// The body of the document for `file`: the page of contents, which lists
/// every product, and the page of each product that is readable, with what
/// `sheet` holds for them.
pub open spec fn document_of(align: AlignTab, sheet: Range<DataType>, file: PdfFile) -> Seq<
    ElementModel,
> {
    let categories = anchors(sheet, file.labels(TabParameters::Category));
    let parameters = anchors(sheet, file.labels(TabParameters::Parameter));
    let products = anchors(sheet, file.labels(TabParameters::Product));
    let ends = block_ends(sheet, categories);
    let included = included_products(sheet, products, categories, ends);
    contents_page(Some(texts_at(sheet, targets_of(products)))) + product_pages(
        align,
        texts_at(sheet, targets_of(included)),
        texts_at(sheet, targets_of(categories)),
        texts_at(sheet, targets_of(parameters)),
        block_texts(sheet, parameter_blocks(categories, ends, parameters)),
        values_of(sheet, included, categories, ends),
        included.len(),
    )
}

impl ConfigXlsx {
    /// Makes the document for `file` from `sheet`: reads the sheet, then
    /// typesets the preamble, the page of contents and a page for each
    /// product.
    ///
    /// Fails as reading does (see [`sheet_outcome`]). Fails also where the
    /// sheet was read but no table can be built for want of parameters; the
    /// error then tells of the first category.
    pub fn compose(
        &self,
        file: &PdfFile,
        sheet: &Range<DataType>,
        policy: MissingPolicy,
    ) -> (result: Result<Composed, SheetError>)
        ensures
            !sheet_reads(*sheet, *file, policy) ==> (result matches Err(error) && sheet_outcome(
                *sheet,
                *file,
                policy,
                Err::<SheetData, SheetError>(error),
            )),
            sheet_reads(*sheet, *file, policy) && lacks_parameters(*sheet, *file) ==> result is Err
                && is_malformed(
                result->Err_0,
                0,
                0,
                texts_at(
                    *sheet,
                    targets_of(anchors(*sheet, file.labels(TabParameters::Category))),
                )[0],
            ),
            sheet_reads(*sheet, *file, policy) && !lacks_parameters(*sheet, *file) ==> (
            result matches Ok(composed) && composed.page.preamble() == self.preamble_entries()
                && composed.page.author() == Some("Biotec"@) && composed.page.title() == Some(
                "Template"@,
            ) && composed.page.body() == document_of(self.alignment(), *sheet, *file)
                && composed.skipped.deep_view() == texts_at(
                *sheet,
                targets_of(
                    skipped_products(
                        *sheet,
                        anchors(*sheet, file.labels(TabParameters::Product)),
                        anchors(*sheet, file.labels(TabParameters::Category)),
                        block_ends(*sheet, anchors(*sheet, file.labels(TabParameters::Category))),
                    ),
                ),
            )),
    {
        let data = match file.read_sheet(sheet, policy) {
            Ok(data) => data,
            Err(error) => {
                return Err(error);
            },
        };
        let ghost categories = anchors(*sheet, file.labels(TabParameters::Category));
        let ghost parameters = anchors(*sheet, file.labels(TabParameters::Parameter));
        let ghost products = anchors(*sheet, file.labels(TabParameters::Product));
        let ghost ends = block_ends(*sheet, categories);
        let ghost included = included_products(*sheet, products, categories, ends);
        let ghost titles = data.titles.deep_view();
        let ghost general = data.general_content.deep_view();
        let ghost values = data.product_values.deep_view();
        proof {
            assert(titles.len() == categories.len());
            assert(general.len() == categories.len());
            assert(forall|p: int|
                0 <= p < included.len() ==> (#[trigger] values[p]).len() == categories.len());
            assert forall|c: int| 0 <= c < categories.len() implies (parameters.len() > 0
                ==> fits_blocks((#[trigger] general[c]).len(), parameters.len()))
                && (parameters.len() == 0 ==> general[c].len() == 0) by {
                lemma_category_values_fit(*sheet, categories, ends, parameters, c);
            }
            if lacks_parameters(*sheet, *file) {
                assert(!fits_blocks(general[0].len(), 0));
                assert(!page_builds(titles, general, values[0], 0));
            }
        }
        match self.typeset(&data) {
            Ok(page) => Ok(Composed { page, skipped: data.skipped }),
            Err(error) => {
                proof {
                    // Every list has an entry for each category, so that a page fails
                    // for want of parameters alone, and then with its first category.
                    let p = choose|p: int|
                        0 <= p < included.len() && pages_build(
                            titles,
                            data.parameters.deep_view(),
                            general,
                            values,
                            p as nat,
                        ) && is_page_error(
                            titles,
                            general,
                            #[trigger] values[p],
                            data.parameters.deep_view().len(),
                            error,
                        );
                    assert(first_misfit(titles, general, data.parameters.deep_view().len(), error));
                    let i = choose|i: int|
                        0 <= i < titles.len() && !fits_blocks(
                            (#[trigger] general[i]).len(),
                            data.parameters.deep_view().len(),
                        ) && all_fit(general, i as nat, data.parameters.deep_view().len())
                            && is_malformed(
                            error,
                            general[i].len(),
                            data.parameters.deep_view().len(),
                            titles[i],
                        );
                    if i > 0 {
                        assert(fits_blocks(general[0].len(), data.parameters.deep_view().len()));
                    }
                }
                Err(error)
            },
        }
    }
}

} // verus!
