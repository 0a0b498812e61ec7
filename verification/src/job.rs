//! Reads from a sheet everything that one document needs.

use vstd::prelude::*;
use calamine::{DataType, Range};
use crate::assembly::{assembled, fits_blocks};
use crate::config_xlsx::{PdfFile, TabParameters};
use crate::error::SheetError;
use crate::extractor::{
    all_present, block_texts, blocks_present, first_missing, first_missing_in_blocks,
    lemma_block_targets_len, lemma_first_missing_in_blocks_is_unique,
    lemma_first_missing_is_missing, parameter_blocks, product_blocks, rows_of,
    targets_of, texts_at,
};
use crate::locator::{anchors, block_end, lemma_anchor_reads_label, lemma_block_end_is_unique};
use crate::sheet::cell_at;
use crate::text::Text;

verus! {

/// What to do about a product for which a value is missing.
#[derive(Debug, Clone, Copy, PartialEq, Eq, Structural)]
pub enum MissingPolicy {
    /// Leave the product out and go on with the next.
    SkipProduct,
    /// Give up the whole document.
    AbortJob,
}

impl MissingPolicy {
    /// The policy that leaves incomplete products out where `skip` is set,
    /// and the one that gives up the document where it is not.
    pub fn when_skipping(skip: bool) -> (policy: MissingPolicy)
        ensures
            policy == if skip {
                MissingPolicy::SkipProduct
            } else {
                MissingPolicy::AbortJob
            },
    {
        if skip {
            MissingPolicy::SkipProduct
        } else {
            MissingPolicy::AbortJob
        }
    }
}

/// What a sheet holds for one document.
#[derive(Debug)]
pub struct SheetData {
    /// The title of each category.
    pub titles: Vec<String>,
    /// The name of each parameter column.
    pub parameters: Vec<String>,
    /// The name of each product, whether it has a page or not.
    pub listed_products: Vec<String>,
    /// The name of each product that has a page.
    pub product_names: Vec<String>,
    /// The flat values of each category.
    pub general_content: Vec<Vec<String>>,
    /// For each product that has a page, its values in each category.
    pub product_values: Vec<Vec<Vec<String>>>,
    /// The name of each product that was left out.
    pub skipped: Vec<String>,
}

/// For each anchor, the end of its block: the cell of the anchor's row in the
/// column where the block ends.
pub open spec fn block_ends(sheet: Range<DataType>, starts: Seq<(usize, usize)>) -> Seq<
    (usize, usize),
> {
    Seq::new(
        starts.len(),
        |i: int| (starts[i].0, block_end(sheet, starts[i].0 as int, starts[i].1 as int) as usize),
    )
}

/// Whether the product with the anchor `product` has a value in every column
/// of every range.
pub open spec fn readable(
    sheet: Range<DataType>,
    product: (usize, usize),
    starts: Seq<(usize, usize)>,
    ends: Seq<(usize, usize)>,
) -> bool {
    blocks_present(sheet, product_blocks(product.0 as int, starts, ends))
}

/// Whether every product is readable.
pub open spec fn all_readable(
    sheet: Range<DataType>,
    products: Seq<(usize, usize)>,
    starts: Seq<(usize, usize)>,
    ends: Seq<(usize, usize)>,
) -> bool {
    forall|p: int| 0 <= p < products.len() ==> readable(sheet, #[trigger] products[p], starts, ends)
}

/// The anchors of the products that are readable, in their order.
pub open spec fn included_products(
    sheet: Range<DataType>,
    products: Seq<(usize, usize)>,
    starts: Seq<(usize, usize)>,
    ends: Seq<(usize, usize)>,
) -> Seq<(usize, usize)>
    decreases products.len(),
{
    if products.len() == 0 {
        Seq::empty()
    } else if readable(sheet, products.last(), starts, ends) {
        included_products(sheet, products.drop_last(), starts, ends).push(products.last())
    } else {
        included_products(sheet, products.drop_last(), starts, ends)
    }
}

/// The anchors of the products that are not readable, in their order.
pub open spec fn skipped_products(
    sheet: Range<DataType>,
    products: Seq<(usize, usize)>,
    starts: Seq<(usize, usize)>,
    ends: Seq<(usize, usize)>,
) -> Seq<(usize, usize)>
    decreases products.len(),
{
    if products.len() == 0 {
        Seq::empty()
    } else if readable(sheet, products.last(), starts, ends) {
        skipped_products(sheet, products.drop_last(), starts, ends)
    } else {
        skipped_products(sheet, products.drop_last(), starts, ends).push(products.last())
    }
}

/// For each product, its values in each range.
pub open spec fn values_of(
    sheet: Range<DataType>,
    products: Seq<(usize, usize)>,
    starts: Seq<(usize, usize)>,
    ends: Seq<(usize, usize)>,
) -> Seq<Seq<Seq<Text>>> {
    Seq::new(
        products.len(),
        |p: int| block_texts(sheet, product_blocks(products[p].0 as int, starts, ends)),
    )
}

/// Whether `name` is the name of the first product that is not readable and
/// `(row, col)` its first empty cell.
pub open spec fn first_unreadable(
    sheet: Range<DataType>,
    products: Seq<(usize, usize)>,
    starts: Seq<(usize, usize)>,
    ends: Seq<(usize, usize)>,
    row: usize,
    col: usize,
    name: Text,
) -> bool {
    exists|p: int|
        0 <= p < products.len() && all_readable(sheet, products.take(p), starts, ends)
            && first_missing_in_blocks(
            sheet,
            product_blocks((#[trigger] products[p]).0 as int, starts, ends),
            row,
            col,
        ) && cell_at(sheet, products[p].0 as int, products[p].1 as int) == Some(name)
}

/// Whether `result` is the error that tells of `found` anchors for `labels`.
pub open spec fn is_mismatch(
    result: Result<SheetData, SheetError>,
    labels: Seq<Text>,
    found: Seq<(usize, usize)>,
) -> bool {
    result matches Err(SheetError::AnchorCountMismatch { labels: wanted, expected, found: seen })
        && wanted.deep_view() == labels && expected == labels.len() && seen@ == found
}

/// Whether reading `sheet` for the document `file` succeeds: each kind of
/// anchor is found as often as it has labels, every category has all its
/// values and, under [`MissingPolicy::AbortJob`], so has every product.
pub open spec fn sheet_reads(sheet: Range<DataType>, file: PdfFile, policy: MissingPolicy) -> bool {
    let categories = anchors(sheet, file.labels(TabParameters::Category));
    let parameters = anchors(sheet, file.labels(TabParameters::Parameter));
    let products = anchors(sheet, file.labels(TabParameters::Product));
    let ends = block_ends(sheet, categories);
    &&& categories.len() == file.labels(TabParameters::Category).len()
    &&& parameters.len() == file.labels(TabParameters::Parameter).len()
    &&& products.len() == file.labels(TabParameters::Product).len()
    &&& blocks_present(sheet, parameter_blocks(categories, ends, parameters))
    &&& policy == MissingPolicy::AbortJob ==> all_readable(sheet, products, categories, ends)
}

/// Whether `result` is what reading `sheet` for the document `file` comes to.
///
/// The anchors of the categories, the parameters and the products are
/// searched in this order, and the first kind whose anchors do not match its
/// labels in number is the error. Then the values of the categories are read;
/// an empty cell among them is the error. Then each product's values are
/// read. A product with an empty cell is left out under
/// [`MissingPolicy::SkipProduct`] and is the error, with its name, under
/// [`MissingPolicy::AbortJob`].
pub open spec fn sheet_outcome(
    sheet: Range<DataType>,
    file: PdfFile,
    policy: MissingPolicy,
    result: Result<SheetData, SheetError>,
) -> bool {
    let categories = anchors(sheet, file.labels(TabParameters::Category));
    let parameters = anchors(sheet, file.labels(TabParameters::Parameter));
    let products = anchors(sheet, file.labels(TabParameters::Product));
    let ends = block_ends(sheet, categories);
    let blocks = parameter_blocks(categories, ends, parameters);
    if categories.len() != file.labels(TabParameters::Category).len() {
        is_mismatch(result, file.labels(TabParameters::Category), categories)
    } else if parameters.len() != file.labels(TabParameters::Parameter).len() {
        is_mismatch(result, file.labels(TabParameters::Parameter), parameters)
    } else if products.len() != file.labels(TabParameters::Product).len() {
        is_mismatch(result, file.labels(TabParameters::Product), products)
    } else if !blocks_present(sheet, blocks) {
        result matches Err(SheetError::MissingValue { row, col, product }) && product is None
            && first_missing_in_blocks(sheet, blocks, row, col)
    } else if policy == MissingPolicy::AbortJob && !all_readable(
        sheet,
        products,
        categories,
        ends,
    ) {
        result matches Err(SheetError::MissingValue { row, col, product: Some(name) })
            && first_unreadable(sheet, products, categories, ends, row, col, name@)
    } else {
        let included = included_products(sheet, products, categories, ends);
        result matches Ok(data) && data.titles.deep_view() == texts_at(
            sheet,
            targets_of(categories),
        ) && data.parameters.deep_view() == texts_at(sheet, targets_of(parameters))
            && data.listed_products.deep_view() == texts_at(sheet, targets_of(products))
            && data.product_names.deep_view() == texts_at(sheet, targets_of(included))
            && data.general_content.deep_view() == block_texts(sheet, blocks)
            && data.product_values.deep_view() == values_of(sheet, included, categories, ends)
            && data.skipped.deep_view() == texts_at(
            sheet,
            targets_of(skipped_products(sheet, products, categories, ends)),
        )
    }
}

/// Whether two errors tell the same.
pub open spec fn same_error(first: SheetError, second: SheetError) -> bool {
    match (first, second) {
        (
            SheetError::AnchorCountMismatch { labels, expected, found },
            SheetError::AnchorCountMismatch {
                labels: other_labels,
                expected: other_expected,
                found: other_found,
            },
        ) => labels.deep_view() == other_labels.deep_view() && expected == other_expected && found@
            == other_found@,
        (
            SheetError::MissingValue { row, col, product },
            SheetError::MissingValue { row: other_row, col: other_col, product: other_product },
        ) => row == other_row && col == other_col && product.deep_view()
            == other_product.deep_view(),
        (
            SheetError::MalformedBlock { len, block, label },
            SheetError::MalformedBlock { len: other_len, block: other_block, label: other_label },
        ) => len == other_len && block == other_block && label.deep_view()
            == other_label.deep_view(),
        (
            SheetError::CountMismatch { expected, found },
            SheetError::CountMismatch { expected: other_expected, found: other_found },
        ) => expected == other_expected && found == other_found,
        (SheetError::ExternalToolFailure, SheetError::ExternalToolFailure) => true,
        _ => false,
    }
}

/// The tables that are built from what was read: for each product that has a
/// page and each category, the rows of the category's table.
pub open spec fn tables_of(data: SheetData) -> Seq<Seq<Seq<Seq<Text>>>> {
    Seq::new(
        data.product_values.len() as nat,
        |p: int|
            Seq::new(
                data.general_content.len() as nat,
                |c: int|
                    assembled(
                        data.general_content.deep_view()[c],
                        data.product_values.deep_view()[p][c],
                        data.parameters.len() as nat,
                    ),
            ),
    )
}

/// Whether two readings of a sheet came to the same: the same error, or the
/// same texts and the same products left out.
pub open spec fn same_outcome(
    first: Result<SheetData, SheetError>,
    second: Result<SheetData, SheetError>,
) -> bool {
    match (first, second) {
        (Ok(a), Ok(b)) => a.titles.deep_view() == b.titles.deep_view() && a.parameters.deep_view()
            == b.parameters.deep_view() && a.listed_products.deep_view()
            == b.listed_products.deep_view() && a.product_names.deep_view()
            == b.product_names.deep_view() && a.general_content.deep_view()
            == b.general_content.deep_view() && a.product_values.deep_view()
            == b.product_values.deep_view() && a.skipped.deep_view() == b.skipped.deep_view()
            && tables_of(a) == tables_of(b),
        (Err(a), Err(b)) => same_error(a, b),
        _ => false,
    }
}

/// The error `error` with the name of the product it is about.
fn named(error: SheetError, name: String) -> (with_name: SheetError)
    ensures
        match error {
            SheetError::MissingValue { row, col, product } => with_name
                matches SheetError::MissingValue {
                row: same_row,
                col: same_col,
                product: Some(product_name),
            } && same_row == row && same_col == col && product_name@ == name@,
            _ => with_name == error,
        },
{
    match error {
        SheetError::MissingValue { row, col, product: _ } => SheetError::MissingValue {
            row,
            col,
            product: Some(name),
        },
        other => other,
    }
}

impl PdfFile {
    /// Reads from `sheet` what this document needs: the titles of the
    /// categories, the names of the parameter columns, the values of each
    /// category and, for each product, its name and its values. What it
    /// returns is laid down by [`sheet_outcome`].
    #[verifier::loop_isolation(false)]
    pub fn read_sheet(&self, sheet: &Range<DataType>, policy: MissingPolicy) -> (result: Result<
        SheetData,
        SheetError,
    >)
        ensures
            sheet_outcome(*sheet, *self, policy, result),
    {
        let categories = match self.search_cells_coordinates(sheet, TabParameters::Category) {
            Ok(found) => found,
            Err(error) => {
                return Err(error);
            },
        };
        let parameters = match self.search_cells_coordinates(sheet, TabParameters::Parameter) {
            Ok(found) => found,
            Err(error) => {
                return Err(error);
            },
        };
        let products = match self.search_cells_coordinates(sheet, TabParameters::Product) {
            Ok(found) => found,
            Err(error) => {
                return Err(error);
            },
        };
        let ends = self.get_parameters_range(sheet, &categories);
        proof {
            assert forall|i: int| 0 <= i < categories.len() implies ends@[i] == block_ends(
                *sheet,
                categories@,
            )[i] by {
                lemma_block_end_is_unique(
                    *sheet,
                    categories[i].0 as int,
                    categories[i].1 as int,
                    ends[i].1 as int,
                );
            }
            assert(ends@ =~= block_ends(*sheet, categories@));
            lemma_anchors_have_text(*sheet, self.labels(TabParameters::Category));
            lemma_anchors_have_text(*sheet, self.labels(TabParameters::Parameter));
            lemma_anchors_have_text(*sheet, self.labels(TabParameters::Product));
        }
        let titles = match self.get_values_at(sheet, &categories) {
            Ok(texts) => texts,
            Err(error) => {
                return Err(error);
            },
        };
        let names = match self.get_values_at(sheet, &parameters) {
            Ok(texts) => texts,
            Err(error) => {
                return Err(error);
            },
        };
        let all_product_names = match self.get_values_at(sheet, &products) {
            Ok(texts) => texts,
            Err(error) => {
                return Err(error);
            },
        };
        let general_content = match self.get_parameters_by_id(
            sheet,
            &categories,
            &ends,
            &parameters,
        ) {
            Ok(values) => values,
            Err(error) => {
                return Err(error);
            },
        };
        proof {
            assert(all_product_names.deep_view().len() == all_product_names.len());
        }
        let mut product_names: Vec<String> = Vec::new();
        let mut product_values: Vec<Vec<Vec<String>>> = Vec::new();
        let mut skipped: Vec<String> = Vec::new();
        let mut p: usize = 0;
        while p < products.len()
            invariant
                p <= products.len(),
                all_product_names.len() == products.len(),
                policy == MissingPolicy::AbortJob ==> all_readable(
                    *sheet,
                    products@.take(p as int),
                    categories@,
                    ends@,
                ),
                product_names.deep_view() == texts_at(
                    *sheet,
                    targets_of(
                        included_products(*sheet, products@.take(p as int), categories@, ends@),
                    ),
                ),
                product_values.deep_view() == values_of(
                    *sheet,
                    included_products(*sheet, products@.take(p as int), categories@, ends@),
                    categories@,
                    ends@,
                ),
                skipped.deep_view() == texts_at(
                    *sheet,
                    targets_of(
                        skipped_products(*sheet, products@.take(p as int), categories@, ends@),
                    ),
                ),
            decreases products.len() - p,
        {
            let ghost before = products@.take(p as int);
            let ghost after = products@.take(p + 1);
            proof {
                assert(after.drop_last() =~= before);
            }
            match self.get_values_from_parameters(sheet, products[p], &categories, &ends) {
                Ok(values) => {
                    let ghost names_before = product_names.deep_view();
                    let ghost values_before = product_values.deep_view();
                    product_names.push(all_product_names[p].clone());
                    product_values.push(values);
                    proof {
                        assert(all_product_names.deep_view()[p as int]
                            == all_product_names[p as int]@);
                        assert(product_names.deep_view() =~= names_before.push(
                            all_product_names[p as int]@,
                        ));
                        assert(product_values.deep_view() =~= values_before.push(
                            values.deep_view(),
                        ));
                        assert(forall|q: int|
                            0 <= q < after.len() ==> readable(
                                *sheet,
                                #[trigger] after[q],
                                categories@,
                                ends@,
                            ) || policy != MissingPolicy::AbortJob);
                    }
                },
                Err(error) => {
                    match policy {
                        MissingPolicy::AbortJob => {
                            proof {
                                assert(all_product_names.deep_view()[p as int]
                                    == all_product_names[p as int]@);
                            }
                            return Err(named(error, all_product_names[p].clone()));
                        },
                        MissingPolicy::SkipProduct => {
                            let ghost skipped_before = skipped.deep_view();
                            skipped.push(all_product_names[p].clone());
                            proof {
                                assert(all_product_names.deep_view()[p as int]
                                    == all_product_names[p as int]@);
                                assert(skipped.deep_view() =~= skipped_before.push(
                                    all_product_names[p as int]@,
                                ));
                            }
                        },
                    }
                },
            }
            p += 1;
        }
        proof {
            assert(products@.take(p as int) =~= products@);
        }
        Ok(
            SheetData {
                titles,
                parameters: names,
                listed_products: all_product_names,
                product_names,
                general_content,
                product_values,
                skipped,
            },
        )
    }
}

/// Every anchor is a cell that has text.
pub proof fn lemma_anchors_have_text(sheet: Range<DataType>, labels: Seq<Text>)
    ensures
        all_present(sheet, targets_of(anchors(sheet, labels))),
{
    let targets = targets_of(anchors(sheet, labels));
    assert forall|i: int| 0 <= i < targets.len() implies cell_at(
        sheet,
        (#[trigger] targets[i]).0,
        targets[i].1,
    ) is Some by {
        lemma_anchor_reads_label(sheet, labels, i);
    }
}

/// The values read for a category can always be cut into one group for each
/// parameter: there are as many of them for each column of the category as
/// there are parameters. Without parameters there are no values.
pub proof fn lemma_category_values_fit(
    sheet: Range<DataType>,
    starts: Seq<(usize, usize)>,
    ends: Seq<(usize, usize)>,
    id_line: Seq<(usize, usize)>,
    c: int,
)
    requires
        starts.len() == ends.len(),
        0 <= c < starts.len(),
    ensures
        id_line.len() > 0 ==> fits_blocks(
            block_texts(sheet, parameter_blocks(starts, ends, id_line))[c].len(),
            id_line.len(),
        ),
        id_line.len() == 0 ==> block_texts(sheet, parameter_blocks(starts, ends, id_line))[c].len()
            == 0,
{
    let first = starts[c].1 as int;
    let last = ends[c].1 as int;
    lemma_block_targets_len(starts[c].0 as int, first, last, rows_of(id_line));
    let n = id_line.len();
    if last >= first {
        let m = (last - first + 1) as nat;
        if n > 0 {
            assert((m * n) % n == 0) by (nonlinear_arith)
                requires
                    n > 0,
            ;
        } else {
            assert(m * n == 0) by (nonlinear_arith)
                requires
                    n == 0,
            ;
        }
    } else if n > 0 {
        assert(0nat % n == 0);
    }
}

/// Where a position is the first empty target of a list of blocks, not all
/// targets of all blocks have text.
proof fn lemma_missing_in_blocks_is_missing(
    sheet: Range<DataType>,
    blocks: Seq<Seq<(int, int)>>,
    row: usize,
    col: usize,
)
    requires
        first_missing_in_blocks(sheet, blocks, row, col),
    ensures
        !blocks_present(sheet, blocks),
{
    let i = choose|i: int|
        0 <= i < blocks.len() && blocks_present(sheet, blocks.take(i)) && first_missing(
            sheet,
            #[trigger] blocks[i],
            row,
            col,
        );
    lemma_first_missing_is_missing(sheet, blocks[i], row, col);
}

/// Only one position is the first empty cell of the first product that is
/// not readable.
proof fn lemma_first_unreadable_is_unique(
    sheet: Range<DataType>,
    products: Seq<(usize, usize)>,
    starts: Seq<(usize, usize)>,
    ends: Seq<(usize, usize)>,
    row: usize,
    col: usize,
    name: Text,
    other_row: usize,
    other_col: usize,
    other_name: Text,
)
    requires
        first_unreadable(sheet, products, starts, ends, row, col, name),
        first_unreadable(sheet, products, starts, ends, other_row, other_col, other_name),
    ensures
        row == other_row,
        col == other_col,
        name == other_name,
{
    let p = choose|p: int|
        0 <= p < products.len() && all_readable(sheet, products.take(p), starts, ends)
            && first_missing_in_blocks(
            sheet,
            product_blocks((#[trigger] products[p]).0 as int, starts, ends),
            row,
            col,
        ) && cell_at(sheet, products[p].0 as int, products[p].1 as int) == Some(name);
    let q = choose|q: int|
        0 <= q < products.len() && all_readable(sheet, products.take(q), starts, ends)
            && first_missing_in_blocks(
            sheet,
            product_blocks((#[trigger] products[q]).0 as int, starts, ends),
            other_row,
            other_col,
        ) && cell_at(sheet, products[q].0 as int, products[q].1 as int) == Some(other_name);
    lemma_missing_in_blocks_is_missing(
        sheet,
        product_blocks(products[p].0 as int, starts, ends),
        row,
        col,
    );
    lemma_missing_in_blocks_is_missing(
        sheet,
        product_blocks(products[q].0 as int, starts, ends),
        other_row,
        other_col,
    );
    if p < q {
        assert(products.take(q)[p] == products[p]);
    }
    if q < p {
        assert(products.take(p)[q] == products[q]);
    }
    lemma_first_missing_in_blocks_is_unique(
        sheet,
        product_blocks(products[p].0 as int, starts, ends),
        row,
        col,
        other_row,
        other_col,
    );
}

/// Reading is repeatable: whatever [`PdfFile::read_sheet`] may return for a
/// sheet, a document and a policy, it is the same each time. Two outcomes for
/// the same input are the same error or hold the same texts, and then the
/// tables built from them are the same, cell by cell.
pub proof fn lemma_outcome_is_determined(
    sheet: Range<DataType>,
    file: PdfFile,
    policy: MissingPolicy,
    first: Result<SheetData, SheetError>,
    second: Result<SheetData, SheetError>,
)
    requires
        sheet_outcome(sheet, file, policy, first),
        sheet_outcome(sheet, file, policy, second),
    ensures
        same_outcome(first, second),
{
    let categories = anchors(sheet, file.labels(TabParameters::Category));
    let parameters = anchors(sheet, file.labels(TabParameters::Parameter));
    let products = anchors(sheet, file.labels(TabParameters::Product));
    let ends = block_ends(sheet, categories);
    let blocks = parameter_blocks(categories, ends, parameters);
    if categories.len() != file.labels(TabParameters::Category).len() || parameters.len()
        != file.labels(TabParameters::Parameter).len() || products.len() != file.labels(
        TabParameters::Product,
    ).len() {
        // Both are the mismatch of the first kind of anchor that does not match.
    } else if !blocks_present(sheet, blocks) {
        match (first, second) {
            (
                Err(SheetError::MissingValue { row, col, product: _ }),
                Err(SheetError::MissingValue { row: other_row, col: other_col, product: _ }),
            ) => {
                lemma_first_missing_in_blocks_is_unique(
                    sheet,
                    blocks,
                    row,
                    col,
                    other_row,
                    other_col,
                );
            },
            _ => {},
        }
    } else if policy == MissingPolicy::AbortJob && !all_readable(
        sheet,
        products,
        categories,
        ends,
    ) {
        match (first, second) {
            (
                Err(SheetError::MissingValue { row, col, product: Some(name) }),
                Err(
                    SheetError::MissingValue {
                        row: other_row,
                        col: other_col,
                        product: Some(other_name),
                    },
                ),
            ) => {
                lemma_first_unreadable_is_unique(
                    sheet,
                    products,
                    categories,
                    ends,
                    row,
                    col,
                    name@,
                    other_row,
                    other_col,
                    other_name@,
                );
            },
            _ => {},
        }
    } else {
        match (first, second) {
            (Ok(a), Ok(b)) => {
                assert(a.product_values.deep_view().len() == a.product_values.len());
                assert(b.product_values.deep_view().len() == b.product_values.len());
                assert(a.general_content.deep_view().len() == a.general_content.len());
                assert(b.general_content.deep_view().len() == b.general_content.len());
                assert(a.parameters.deep_view().len() == a.parameters.len());
                assert(b.parameters.deep_view().len() == b.parameters.len());
                assert(tables_of(a) =~~= tables_of(b));
            },
            _ => {},
        }
    }
}

} // verus!
