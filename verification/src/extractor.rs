//! Reads the values of a sheet: the texts of given cells, the values of each
//! category's block and the values of one product.

use vstd::prelude::*;
use calamine::{DataType, Range};
use crate::config_xlsx::PdfFile;
use crate::error::SheetError;
use crate::sheet::{cell_at, text_at};
use crate::text::Text;

verus! {

/// A position in a sheet, as `(row, column)`. It may lie beyond what the
/// machine can count.
pub type Target = (int, int);

/// `position` as the machine holds it: the largest number there is where
/// `position` is larger than that.
pub open spec fn clipped(position: int) -> usize {
    if position > usize::MAX {
        usize::MAX
    } else {
        position as usize
    }
}

/// Whether every one of `targets` has text.
pub open spec fn all_present(sheet: Range<DataType>, targets: Seq<Target>) -> bool {
    forall|i: int|
        0 <= i < targets.len() ==> cell_at(sheet, (#[trigger] targets[i]).0, targets[i].1) is Some
}

/// The texts of `targets`, in order.
pub open spec fn texts_at(sheet: Range<DataType>, targets: Seq<Target>) -> Seq<Text> {
    Seq::new(targets.len(), |i: int| cell_at(sheet, targets[i].0, targets[i].1).unwrap())
}

/// Whether `(row, col)` is the first of `targets` that is empty.
pub open spec fn first_missing(
    sheet: Range<DataType>,
    targets: Seq<Target>,
    row: usize,
    col: usize,
) -> bool {
    exists|i: int|
        0 <= i < targets.len() && cell_at(sheet, (#[trigger] targets[i]).0, targets[i].1) is None
            && row == clipped(targets[i].0) && col == clipped(targets[i].1) && all_present(
            sheet,
            targets.take(i),
        )
}

/// Whether every target of every block has text.
pub open spec fn blocks_present(sheet: Range<DataType>, blocks: Seq<Seq<Target>>) -> bool {
    forall|i: int| 0 <= i < blocks.len() ==> all_present(sheet, #[trigger] blocks[i])
}

/// The texts of each block.
pub open spec fn block_texts(sheet: Range<DataType>, blocks: Seq<Seq<Target>>) -> Seq<Seq<Text>> {
    Seq::new(blocks.len(), |i: int| texts_at(sheet, blocks[i]))
}

/// Whether `(row, col)` is the first empty target of the first block that has
/// one.
pub open spec fn first_missing_in_blocks(
    sheet: Range<DataType>,
    blocks: Seq<Seq<Target>>,
    row: usize,
    col: usize,
) -> bool {
    exists|i: int|
        0 <= i < blocks.len() && blocks_present(sheet, blocks.take(i)) && first_missing(
            sheet,
            #[trigger] blocks[i],
            row,
            col,
        )
}

/// The targets of one column: the cell in column `col` at each of `offsets`
/// below `row`.
pub open spec fn column_targets(row: int, col: int, offsets: Seq<int>) -> Seq<Target> {
    Seq::new(offsets.len(), |j: int| (row + offsets[j], col))
}

/// The targets of a block, column by column from `first` to `last` and, within
/// a column, offset by offset. Empty where `last` is left of `first`.
pub open spec fn block_targets(row: int, first: int, last: int, offsets: Seq<int>) -> Seq<Target>
    decreases last - first + 1,
{
    if last < first {
        Seq::empty()
    } else {
        block_targets(row, first, last - 1, offsets) + column_targets(row, last, offsets)
    }
}

/// The positions in `coords` as targets.
pub open spec fn targets_of(coords: Seq<(usize, usize)>) -> Seq<Target> {
    Seq::new(coords.len(), |i: int| (coords[i].0 as int, coords[i].1 as int))
}

/// The rows of the positions in `coords`.
pub open spec fn rows_of(coords: Seq<(usize, usize)>) -> Seq<int> {
    Seq::new(coords.len(), |i: int| coords[i].0 as int)
}

/// For each range, from `starts[i]` to `ends[i]`, the targets that hold the
/// values of its category: the columns from the range's start to its end,
/// and in each column the rows that lie below the start by the row of each
/// entry of `id_line`.
pub open spec fn parameter_blocks(
    starts: Seq<(usize, usize)>,
    ends: Seq<(usize, usize)>,
    id_line: Seq<(usize, usize)>,
) -> Seq<Seq<Target>>
    recommends
        starts.len() == ends.len(),
{
    Seq::new(
        starts.len(),
        |i: int|
            block_targets(
                starts[i].0 as int,
                starts[i].1 as int,
                ends[i].1 as int,
                rows_of(id_line),
            ),
    )
}

/// For each range, the targets that hold the values of the product in row
/// `product_row`: that row's cells from the range's start to its end.
pub open spec fn product_blocks(
    product_row: int,
    starts: Seq<(usize, usize)>,
    ends: Seq<(usize, usize)>,
) -> Seq<Seq<Target>>
    recommends
        starts.len() == ends.len(),
{
    Seq::new(
        starts.len(),
        |i: int| block_targets(product_row, starts[i].1 as int, ends[i].1 as int, seq![0int]),
    )
}

/// Reads the targets of one block. Fails with the first target that is empty.
fn read_block(
    sheet: &Range<DataType>,
    row: usize,
    first: usize,
    last: usize,
    offsets: &Vec<usize>,
) -> (result: Result<Vec<String>, SheetError>)
    ensures
        ({
            let targets = block_targets(
                row as int,
                first as int,
                last as int,
                offsets@.map_values(|o: usize| o as int),
            );
            &&& all_present(*sheet, targets) ==> result is Ok && result->Ok_0.deep_view()
                == texts_at(*sheet, targets)
            &&& !all_present(*sheet, targets) ==> (result matches Err(
                SheetError::MissingValue { row: r, col: c, product },
            ) && product is None && first_missing(*sheet, targets, r, c))
        }),
{
    let ghost offs = offsets@.map_values(|o: usize| o as int);
    let ghost targets = block_targets(row as int, first as int, last as int, offs);
    let mut out: Vec<String> = Vec::new();
    if last < first {
        return Ok(out);
    }
    let mut col = first;
    let mut done = false;
    // The targets read so far.
    let ghost mut seen: Seq<Target> = Seq::empty();
    while !done
        invariant
            first <= col <= last,
            offs == offsets@.map_values(|o: usize| o as int),
            targets == block_targets(row as int, first as int, last as int, offs),
            !done ==> seen == block_targets(row as int, first as int, col - 1, offs),
            done ==> seen == targets,
            all_present(*sheet, seen),
            out.deep_view() == texts_at(*sheet, seen),
        decreases last - col + (if done { 0int } else { 1int }),
    {
        let ghost before = seen;
        let ghost column = column_targets(row as int, col as int, offs);
        let mut j: usize = 0;
        while j < offsets.len()
            invariant
                j <= offsets.len(),
                first <= col <= last,
                offs == offsets@.map_values(|o: usize| o as int),
                targets == block_targets(row as int, first as int, last as int, offs),
                before == block_targets(row as int, first as int, col - 1, offs),
                column == column_targets(row as int, col as int, offs),
                seen == before + column.take(j as int),
                all_present(*sheet, seen),
                out.deep_view() == texts_at(*sheet, seen),
            decreases offsets.len() - j,
        {
            let offset = offsets[j];
            let ghost target = (row + offset, col as int);
            let cell = if offset > usize::MAX - row {
                None
            } else {
                text_at(sheet, row + offset, col)
            };
            match cell {
                Some(text) => {
                    let ghost texts = out.deep_view();
                    out.push(text);
                    proof {
                        assert(out.deep_view() =~= texts.push(text@));
                        seen = seen.push(target);
                    }
                },
                None => {
                    let missing_row = if offset > usize::MAX - row {
                        usize::MAX
                    } else {
                        row + offset
                    };
                    proof {
                        let with_missing = seen.push(target);
                        let at = seen.len() as int;
                        assert(with_missing[at] == target);
                        lemma_block_split(row as int, first as int, col as int, last as int, offs);
                        let rest = column.skip(j + 1) + block_targets(
                            row as int,
                            col + 1,
                            last as int,
                            offs,
                        );
                        assert(targets =~= with_missing + rest);
                        lemma_missing_in_prefix(*sheet, with_missing, rest, missing_row, col);
                    }
                    return Err(SheetError::MissingValue { row: missing_row, col, product: None });
                },
            }
            j += 1;
        }
        if col == last {
            done = true;
        } else {
            col += 1;
        }
    }
    Ok(out)
}

/// The rows of the positions in `coords`.
fn rows(coords: &Vec<(usize, usize)>) -> (rows: Vec<usize>)
    ensures
        rows@.map_values(|o: usize| o as int) == rows_of(coords@),
{
    let mut rows: Vec<usize> = Vec::new();
    let mut i: usize = 0;
    while i < coords.len()
        invariant
            i <= coords.len(),
            rows@.len() == i,
            forall|k: int| 0 <= k < i ==> rows@[k] == (#[trigger] coords@[k]).0,
        decreases coords.len() - i,
    {
        rows.push(coords[i].0);
        i += 1;
    }
    rows
}

impl PdfFile {
    /// Reads the text of the cell at each of the given positions. Fails with
    /// the first position whose cell is empty.
    pub fn get_values_at(
        &self,
        sheet: &Range<DataType>,
        begin_categories: &Vec<(usize, usize)>,
    ) -> (result: Result<Vec<String>, SheetError>)
        ensures
            all_present(*sheet, targets_of(begin_categories@)) ==> result is Ok
                && result->Ok_0.deep_view() == texts_at(*sheet, targets_of(begin_categories@)),
            !all_present(*sheet, targets_of(begin_categories@)) ==> (result matches Err(
                SheetError::MissingValue { row, col, product },
            ) && product is None && first_missing(*sheet, targets_of(begin_categories@), row, col)),
    {
        let ghost targets = targets_of(begin_categories@);
        let mut output: Vec<String> = Vec::new();
        let mut i: usize = 0;
        while i < begin_categories.len()
            invariant
                i <= begin_categories.len(),
                targets == targets_of(begin_categories@),
                all_present(*sheet, targets.take(i as int)),
                output.deep_view() == texts_at(*sheet, targets.take(i as int)),
            decreases begin_categories.len() - i,
        {
            let (row, col) = begin_categories[i];
            proof {
                assert(targets[i as int] == (row as int, col as int));
            }
            match text_at(sheet, row, col) {
                Some(text) => {
                    let ghost texts = output.deep_view();
                    output.push(text);
                    proof {
                        assert(output.deep_view() =~= texts.push(text@));
                    }
                },
                None => {
                    return Err(SheetError::MissingValue { row, col, product: None });
                },
            }
            i += 1;
        }
        proof {
            assert(targets.take(i as int) =~= targets);
        }
        Ok(output)
    }

    /// Reads the values of each category. The category of range `i` reaches
    /// from `start_categ_coord[i]` to `end_categ_coord[i]`; its values are
    /// read column by column and, within a column, from the rows that lie
    /// below the start by the row of each entry of `id_line`. Fails where
    /// there are not as many ends as starts, and with the first cell that is
    /// empty.
    pub fn get_parameters_by_id(
        &self,
        sheet: &Range<DataType>,
        start_categ_coord: &Vec<(usize, usize)>,
        end_categ_coord: &Vec<(usize, usize)>,
        id_line: &Vec<(usize, usize)>,
    ) -> (result: Result<Vec<Vec<String>>, SheetError>)
        ensures
            start_categ_coord.len() != end_categ_coord.len() ==> result == Err::<
                Vec<Vec<String>>,
                SheetError,
            >(
                SheetError::CountMismatch {
                    expected: start_categ_coord.len(),
                    found: end_categ_coord.len(),
                },
            ),
            start_categ_coord.len() == end_categ_coord.len() ==> ({
                let blocks = parameter_blocks(start_categ_coord@, end_categ_coord@, id_line@);
                &&& blocks_present(*sheet, blocks) ==> result is Ok && result->Ok_0.deep_view()
                    == block_texts(*sheet, blocks)
                &&& !blocks_present(*sheet, blocks) ==> (result matches Err(
                    SheetError::MissingValue { row, col, product },
                ) && product is None && first_missing_in_blocks(*sheet, blocks, row, col))
            }),
    {
        if start_categ_coord.len() != end_categ_coord.len() {
            return Err(
                SheetError::CountMismatch {
                    expected: start_categ_coord.len(),
                    found: end_categ_coord.len(),
                },
            );
        }
        let offsets = rows(id_line);
        let ghost blocks = parameter_blocks(start_categ_coord@, end_categ_coord@, id_line@);
        let count = start_categ_coord.len();
        let mut output: Vec<Vec<String>> = Vec::new();
        let mut i: usize = 0;
        while i < count
            invariant
                i <= count,
                count == start_categ_coord.len(),
                count == end_categ_coord.len(),
                offsets@.map_values(|o: usize| o as int) == rows_of(id_line@),
                blocks == parameter_blocks(start_categ_coord@, end_categ_coord@, id_line@),
                blocks_present(*sheet, blocks.take(i as int)),
                output.deep_view() == block_texts(*sheet, blocks.take(i as int)),
            decreases count - i,
        {
            proof {
                assert(blocks.take(i + 1) =~= blocks.take(i as int).push(blocks[i as int]));
            }
            match read_block(
                sheet,
                start_categ_coord[i].0,
                start_categ_coord[i].1,
                end_categ_coord[i].1,
                &offsets,
            ) {
                Ok(parameters) => {
                    let ghost texts = output.deep_view();
                    output.push(parameters);
                    proof {
                        assert(output.deep_view() =~= texts.push(parameters.deep_view()));
                    }
                },
                Err(error) => {
                    return Err(error);
                },
            }
            i += 1;
        }
        proof {
            assert(blocks.take(i as int) =~= blocks);
        }
        Ok(output)
    }

    /// Reads the values of the product whose anchor is at
    /// `product_coordinates`: for each range, the cells of the product's row
    /// from the column of `start_categ_coord[i]` to that of
    /// `end_categ_coord[i]`. Fails where there are not as many ends as
    /// starts, and with the first cell that is empty.
    pub fn get_values_from_parameters(
        &self,
        sheet: &Range<DataType>,
        product_coordinates: (usize, usize),
        start_categ_coord: &Vec<(usize, usize)>,
        end_categ_coord: &Vec<(usize, usize)>,
    ) -> (result: Result<Vec<Vec<String>>, SheetError>)
        ensures
            start_categ_coord.len() != end_categ_coord.len() ==> result == Err::<
                Vec<Vec<String>>,
                SheetError,
            >(
                SheetError::CountMismatch {
                    expected: start_categ_coord.len(),
                    found: end_categ_coord.len(),
                },
            ),
            start_categ_coord.len() == end_categ_coord.len() ==> ({
                let blocks = product_blocks(
                    product_coordinates.0 as int,
                    start_categ_coord@,
                    end_categ_coord@,
                );
                &&& blocks_present(*sheet, blocks) ==> result is Ok && result->Ok_0.deep_view()
                    == block_texts(*sheet, blocks)
                &&& !blocks_present(*sheet, blocks) ==> (result matches Err(
                    SheetError::MissingValue { row, col, product },
                ) && product is None && first_missing_in_blocks(*sheet, blocks, row, col))
            }),
    {
        if start_categ_coord.len() != end_categ_coord.len() {
            return Err(
                SheetError::CountMismatch {
                    expected: start_categ_coord.len(),
                    found: end_categ_coord.len(),
                },
            );
        }
        let mut offsets: Vec<usize> = Vec::new();
        offsets.push(0);
        let ghost blocks = product_blocks(
            product_coordinates.0 as int,
            start_categ_coord@,
            end_categ_coord@,
        );
        let count = start_categ_coord.len();
        let mut out: Vec<Vec<String>> = Vec::new();
        let mut param: usize = 0;
        while param < count
            invariant
                param <= count,
                count == start_categ_coord.len(),
                count == end_categ_coord.len(),
                offsets@.map_values(|o: usize| o as int) == seq![0int],
                blocks == product_blocks(
                    product_coordinates.0 as int,
                    start_categ_coord@,
                    end_categ_coord@,
                ),
                blocks_present(*sheet, blocks.take(param as int)),
                out.deep_view() == block_texts(*sheet, blocks.take(param as int)),
            decreases count - param,
        {
            proof {
                assert(blocks.take(param + 1) =~= blocks.take(param as int).push(
                    blocks[param as int],
                ));
            }
            match read_block(
                sheet,
                product_coordinates.0,
                start_categ_coord[param].1,
                end_categ_coord[param].1,
                &offsets,
            ) {
                Ok(parameters) => {
                    let ghost texts = out.deep_view();
                    out.push(parameters);
                    proof {
                        assert(out.deep_view() =~= texts.push(parameters.deep_view()));
                    }
                },
                Err(error) => {
                    return Err(error);
                },
            }
            param += 1;
        }
        proof {
            assert(blocks.take(param as int) =~= blocks);
        }
        Ok(out)
    }
}

/// A block up to column `last` begins with the block up to any earlier
/// column.
proof fn lemma_block_split(row: int, first: int, mid: int, last: int, offsets: Seq<int>)
    requires
        first - 1 <= mid <= last,
    ensures
        block_targets(row, first, last, offsets) == block_targets(row, first, mid, offsets)
            + block_targets(row, mid + 1, last, offsets),
    decreases last - mid,
{
    if mid < last {
        lemma_block_split(row, first, mid, last - 1, offsets);
    }
}

/// What is first missing in the beginning of a list of targets is first
/// missing in the whole list.
proof fn lemma_missing_in_prefix(
    sheet: Range<DataType>,
    seen: Seq<Target>,
    rest: Seq<Target>,
    row: usize,
    col: usize,
)
    requires
        first_missing(sheet, seen, row, col),
    ensures
        first_missing(sheet, seen + rest, row, col),
{
    let i = choose|i: int|
        0 <= i < seen.len() && cell_at(sheet, (#[trigger] seen[i]).0, seen[i].1) is None && row
            == clipped(seen[i].0) && col == clipped(seen[i].1) && all_present(sheet, seen.take(i));
    let whole = seen + rest;
    assert(whole[i] == seen[i]);
    assert(whole.take(i) =~= seen.take(i));
}

/// A block has, for each of its columns, as many targets as there are
/// offsets.
pub proof fn lemma_block_targets_len(row: int, first: int, last: int, offsets: Seq<int>)
    ensures
        block_targets(row, first, last, offsets).len() == if last < first {
            0
        } else {
            (last - first + 1) * offsets.len()
        },
    decreases last - first + 1,
{
    if last >= first {
        lemma_block_targets_len(row, first, last - 1, offsets);
        assert((last - first) * offsets.len() + offsets.len() == (last - first + 1)
            * offsets.len()) by (nonlinear_arith);
        assert(0 * offsets.len() == 0) by (nonlinear_arith);
    }
}

/// The order of the targets of a block: column by column and, within a
/// column, offset by offset. With `n` offsets, the target at position
/// `m * n + k` lies in the column `m` places right of the first, at the offset
/// in place `k`.
pub proof fn lemma_block_target_at(
    row: int,
    first: int,
    last: int,
    offsets: Seq<int>,
    m: int,
    k: int,
)
    requires
        0 <= m <= last - first,
        0 <= k < offsets.len(),
    ensures
        0 <= m * offsets.len() + k < block_targets(row, first, last, offsets).len(),
        block_targets(row, first, last, offsets)[m * offsets.len() + k] == (
            row + offsets[k],
            first + m,
        ),
    decreases last - first,
{
    let n = offsets.len();
    lemma_block_targets_len(row, first, last, offsets);
    lemma_block_targets_len(row, first, last - 1, offsets);
    assert(0 <= m * n && m * n + n <= (last - first + 1) * n) by (nonlinear_arith)
        requires
            0 <= m <= last - first,
            n >= 0,
    ;
    if m == last - first {
        assert(block_targets(row, first, last - 1, offsets).len() == m * n) by {
            if last - 1 < first {
                assert(m * n == 0) by (nonlinear_arith)
                    requires
                        m == 0,
                ;
            }
        }
        assert(column_targets(row, last, offsets)[k] == (row + offsets[k], last));
    } else {
        lemma_block_target_at(row, first, last - 1, offsets, m, k);
    }
}

/// Where a position is the first of a list of targets that is empty, not
/// all of them have text.
pub proof fn lemma_first_missing_is_missing(
    sheet: Range<DataType>,
    targets: Seq<Target>,
    row: usize,
    col: usize,
)
    requires
        first_missing(sheet, targets, row, col),
    ensures
        !all_present(sheet, targets),
{
}

/// Only one position is the first of a list of targets that is empty.
pub proof fn lemma_first_missing_is_unique(
    sheet: Range<DataType>,
    targets: Seq<Target>,
    row: usize,
    col: usize,
    other_row: usize,
    other_col: usize,
)
    requires
        first_missing(sheet, targets, row, col),
        first_missing(sheet, targets, other_row, other_col),
    ensures
        row == other_row,
        col == other_col,
{
    let i = choose|i: int|
        0 <= i < targets.len() && cell_at(sheet, (#[trigger] targets[i]).0, targets[i].1) is None
            && row == clipped(targets[i].0) && col == clipped(targets[i].1) && all_present(
            sheet,
            targets.take(i),
        );
    let k = choose|k: int|
        0 <= k < targets.len() && cell_at(sheet, (#[trigger] targets[k]).0, targets[k].1) is None
            && other_row == clipped(targets[k].0) && other_col == clipped(targets[k].1)
            && all_present(sheet, targets.take(k));
    if i < k {
        assert(targets.take(k)[i] == targets[i]);
    }
    if k < i {
        assert(targets.take(i)[k] == targets[k]);
    }
}

/// Only one position is the first empty target of a list of blocks.
pub proof fn lemma_first_missing_in_blocks_is_unique(
    sheet: Range<DataType>,
    blocks: Seq<Seq<Target>>,
    row: usize,
    col: usize,
    other_row: usize,
    other_col: usize,
)
    requires
        first_missing_in_blocks(sheet, blocks, row, col),
        first_missing_in_blocks(sheet, blocks, other_row, other_col),
    ensures
        row == other_row,
        col == other_col,
{
    let i = choose|i: int|
        0 <= i < blocks.len() && blocks_present(sheet, blocks.take(i)) && first_missing(
            sheet,
            #[trigger] blocks[i],
            row,
            col,
        );
    let k = choose|k: int|
        0 <= k < blocks.len() && blocks_present(sheet, blocks.take(k)) && first_missing(
            sheet,
            #[trigger] blocks[k],
            other_row,
            other_col,
        );
    lemma_first_missing_is_missing(sheet, blocks[i], row, col);
    lemma_first_missing_is_missing(sheet, blocks[k], other_row, other_col);
    if i < k {
        assert(blocks.take(k)[i] == blocks[i]);
    }
    if k < i {
        assert(blocks.take(i)[k] == blocks[k]);
    }
    lemma_first_missing_is_unique(sheet, blocks[i], row, col, other_row, other_col);
}

} // verus!
