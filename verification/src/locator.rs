//! Finds the anchor cells of a sheet and how far the block of each reaches.

use vstd::prelude::*;
use calamine::{DataType, Range};
use crate::assembly::copy_cells;
use crate::config_xlsx::{PdfFile, TabParameters};
use crate::error::SheetError;
use crate::sheet::{cell_at, last_cell, sheet_cols, sheet_rows, text_at, LAST_POSITION};
use crate::text::Text;

verus! {

/// How many of `labels` read `text`.
pub open spec fn label_hits(labels: Seq<Text>, text: Text) -> nat
    decreases labels.len(),
{
    if labels.len() == 0 {
        0
    } else if labels.last() == text {
        label_hits(labels.drop_last(), text) + 1
    } else {
        label_hits(labels.drop_last(), text)
    }
}

/// The position `(row, col)`, once for each of `labels` that the cell there
/// reads. Nothing for an empty cell.
pub open spec fn cell_anchors(sheet: Range<DataType>, labels: Seq<Text>, row: int, col: int) -> Seq<
    (usize, usize),
> {
    match cell_at(sheet, row, col) {
        Some(text) => Seq::new(label_hits(labels, text), |k: int| (row as usize, col as usize)),
        None => Seq::empty(),
    }
}

/// The anchors in the first `cols` cells of a row, from left to right.
pub open spec fn row_anchors(sheet: Range<DataType>, labels: Seq<Text>, row: int, cols: nat) -> Seq<
    (usize, usize),
>
    decreases cols,
{
    if cols == 0 {
        Seq::empty()
    } else {
        row_anchors(sheet, labels, row, (cols - 1) as nat) + cell_anchors(
            sheet,
            labels,
            row,
            cols - 1,
        )
    }
}

/// The anchors in the first `rows` rows of a sheet, `cols` cells to a row,
/// from top to bottom.
pub open spec fn block_anchors(
    sheet: Range<DataType>,
    labels: Seq<Text>,
    rows: nat,
    cols: nat,
) -> Seq<(usize, usize)>
    decreases rows,
{
    if rows == 0 {
        Seq::empty()
    } else {
        block_anchors(sheet, labels, (rows - 1) as nat, cols) + row_anchors(
            sheet,
            labels,
            rows - 1,
            cols,
        )
    }
}

/// The positions of the cells of a sheet that read one of `labels`, row by
/// row from the top and from left to right within a row. A cell stands once
/// for each label it reads.
pub open spec fn anchors(sheet: Range<DataType>, labels: Seq<Text>) -> Seq<(usize, usize)> {
    block_anchors(sheet, labels, sheet_rows(sheet), sheet_cols(sheet))
}

/// Whether the block right of the anchor at `(row, col)` ends in column
/// `end`: the cells from the anchor's right neighbour to `end` have text and
/// the cell after `end` is empty.
pub open spec fn ends_block(sheet: Range<DataType>, row: int, col: int, end: int) -> bool {
    &&& col <= end
    &&& forall|c: int| col < c <= end ==> (#[trigger] cell_at(sheet, row, c)) is Some
    &&& cell_at(sheet, row, end + 1) is None
}

/// The column in which the block right of the anchor at `(row, col)` ends.
pub open spec fn block_end(sheet: Range<DataType>, row: int, col: int) -> int {
    choose|end: int| ends_block(sheet, row, col, end)
}

/// Whether the cell at `(row, col)` reads `label`.
pub open spec fn reads(sheet: Range<DataType>, row: int, col: int, label: Text) -> bool {
    cell_at(sheet, row, col) == Some(label)
}

/// Whether the cell of the anchor in place `i` reads `label`.
pub open spec fn reads_label(
    sheet: Range<DataType>,
    labels: Seq<Text>,
    i: int,
    label: Text,
) -> bool {
    reads(
        sheet,
        anchors(sheet, labels)[i].0 as int,
        anchors(sheet, labels)[i].1 as int,
        label,
    )
}

/// Whether the cell of exactly one anchor reads `label`.
pub open spec fn read_by_one_anchor(
    sheet: Range<DataType>,
    labels: Seq<Text>,
    label: Text,
) -> bool {
    exists|i: int|
        0 <= i < anchors(sheet, labels).len() && #[trigger] reads_label(sheet, labels, i, label)
            && forall|j: int|
            0 <= j < anchors(sheet, labels).len() && #[trigger] reads_label(
                sheet,
                labels,
                j,
                label,
            ) ==> j == i
}

/// Whether exactly one cell within the rows and columns of a sheet reads
/// `label`.
pub open spec fn read_once(sheet: Range<DataType>, label: Text) -> bool {
    exists|row: int, col: int|
        0 <= row < sheet_rows(sheet) && 0 <= col < sheet_cols(sheet) && #[trigger] reads(
            sheet,
            row,
            col,
            label,
        ) && forall|r: int, c: int|
            0 <= r < sheet_rows(sheet) && 0 <= c < sheet_cols(sheet) && #[trigger] reads(
                sheet,
                r,
                c,
                label,
            ) ==> r == row && c == col
}

/// Appends to `output` the anchors in the cell at `(row, col)`.
fn push_cell_anchors(
    sheet: &Range<DataType>,
    labels: &Vec<String>,
    row: usize,
    col: usize,
    output: &mut Vec<(usize, usize)>,
)
    ensures
        final(output)@ == old(output)@ + cell_anchors(
            *sheet,
            labels.deep_view(),
            row as int,
            col as int,
        ),
{
    let ghost wanted = labels.deep_view();
    let ghost before = output@;
    if let Some(text) = text_at(sheet, row, col) {
        let mut k: usize = 0;
        while k < labels.len()
            invariant
                k <= labels.len(),
                wanted == labels.deep_view(),
                output@ == before + Seq::new(
                    label_hits(wanted.take(k as int), text@),
                    |n: int| (row, col),
                ),
            decreases labels.len() - k,
        {
            proof {
                assert(wanted.take(k + 1).drop_last() =~= wanted.take(k as int));
            }
            if labels[k] == text {
                output.push((row, col));
            }
            k += 1;
        }
        proof {
            assert(wanted.take(k as int) =~= wanted);
        }
    }
}

/// Appends to `output` the anchors in the cells of a row up to the column
/// `last_col`.
fn push_row_anchors(
    sheet: &Range<DataType>,
    labels: &Vec<String>,
    row: usize,
    last_col: usize,
    output: &mut Vec<(usize, usize)>,
)
    ensures
        final(output)@ == old(output)@ + row_anchors(
            *sheet,
            labels.deep_view(),
            row as int,
            (last_col + 1) as nat,
        ),
{
    let ghost before = output@;
    let mut col: usize = 0;
    let mut done = false;
    while !done
        invariant
            col <= last_col,
            !done ==> output@ == before + row_anchors(
                *sheet,
                labels.deep_view(),
                row as int,
                col as nat,
            ),
            done ==> output@ == before + row_anchors(
                *sheet,
                labels.deep_view(),
                row as int,
                (last_col + 1) as nat,
            ),
        decreases last_col - col + (if done { 0int } else { 1int }),
    {
        push_cell_anchors(sheet, labels, row, col, output);
        if col == last_col {
            done = true;
        } else {
            col += 1;
        }
    }
}

impl PdfFile {
    /// Finds the anchor cells of one kind: every cell of `sheet` that reads
    /// one of the labels of that kind, row by row from the top and from left
    /// to right within a row.
    ///
    /// There must be as many anchors as labels. Where a label is missing from
    /// the sheet or found twice, the error holds the labels, their number
    /// and the anchors that were found.
    pub fn search_cells_coordinates(
        &self,
        sheet: &Range<DataType>,
        field: TabParameters,
    ) -> (result: Result<Vec<(usize, usize)>, SheetError>)
        ensures
            anchors(*sheet, self.labels(field)).len() == self.labels(field).len() ==> result is Ok
                && result->Ok_0@ == anchors(*sheet, self.labels(field)),
            anchors(*sheet, self.labels(field)).len() != self.labels(field).len() ==> (
            result matches Err(SheetError::AnchorCountMismatch { labels, expected, found })
                && labels.deep_view() == self.labels(field) && expected == self.labels(field).len()
                && found@ == anchors(*sheet, self.labels(field))),
    {
        let labels = self.get_labels(field);
        let mut output: Vec<(usize, usize)> = Vec::new();
        if let Some(end) = last_cell(sheet) {
            let last_row = end.0 as usize;
            let last_col = end.1 as usize;
            let mut row: usize = 0;
            let mut done = false;
            while !done
                invariant
                    sheet_rows(*sheet) == last_row + 1,
                    sheet_cols(*sheet) == last_col + 1,
                    last_col <= LAST_POSITION,
                    row <= last_row,
                    !done ==> output@ == block_anchors(
                        *sheet,
                        labels.deep_view(),
                        row as nat,
                        sheet_cols(*sheet),
                    ),
                    done ==> output@ == anchors(*sheet, labels.deep_view()),
                decreases last_row - row + (if done { 0int } else { 1int }),
            {
                push_row_anchors(sheet, labels, row, last_col, &mut output);
                if row == last_row {
                    done = true;
                } else {
                    row += 1;
                }
            }
        }
        if output.len() == labels.len() {
            Ok(output)
        } else {
            Err(
                SheetError::AnchorCountMismatch {
                    labels: copy_cells(labels),
                    expected: labels.len(),
                    found: output,
                },
            )
        }
    }

    /// Finds, for each anchor, where its block ends: the last cell of the
    /// anchor's row up to which every cell right of the anchor has text. The
    /// end is the anchor itself where its right neighbour is empty. An end
    /// right of its anchor lies within the columns of the sheet.
    pub fn get_parameters_range(
        &self,
        sheet: &Range<DataType>,
        categories_coord: &Vec<(usize, usize)>,
    ) -> (end_categories: Vec<(usize, usize)>)
        ensures
            end_categories.len() == categories_coord.len(),
            forall|i: int|
                0 <= i < categories_coord.len() ==> (#[trigger] end_categories[i]).0
                    == categories_coord[i].0 && ends_block(
                    *sheet,
                    categories_coord[i].0 as int,
                    categories_coord[i].1 as int,
                    end_categories[i].1 as int,
                ) && (end_categories[i].1 == categories_coord[i].1 || end_categories[i].1
                    < sheet_cols(*sheet)),
    {
        let mut end_categories: Vec<(usize, usize)> = Vec::new();
        let mut i: usize = 0;
        while i < categories_coord.len()
            invariant
                i <= categories_coord.len(),
                end_categories.len() == i,
                forall|k: int|
                    0 <= k < i ==> (#[trigger] end_categories[k]).0 == categories_coord[k].0
                        && ends_block(
                        *sheet,
                        categories_coord[k].0 as int,
                        categories_coord[k].1 as int,
                        end_categories[k].1 as int,
                    ) && (end_categories[k].1 == categories_coord[k].1 || end_categories[k].1
                        < sheet_cols(*sheet)),
            decreases categories_coord.len() - i,
        {
            let row = categories_coord[i].0;
            let start = categories_coord[i].1;
            let mut col = start;
            let mut open = true;
            while open
                invariant
                    start <= col,
                    col == start || col < sheet_cols(*sheet),
                    forall|c: int|
                        start < c <= col ==> (#[trigger] cell_at(*sheet, row as int, c)) is Some,
                    !open ==> cell_at(*sheet, row as int, col + 1) is None,
                    open ==> col <= LAST_POSITION || col == start,
                decreases
                        (if col < LAST_POSITION { LAST_POSITION - col } else { 0int })
                        + (if open { 1int } else { 0int }),
            {
                if col >= LAST_POSITION {
                    open = false;
                } else {
                    match text_at(sheet, row, col + 1) {
                        Some(_) => {
                            col += 1;
                        },
                        None => {
                            open = false;
                        },
                    }
                }
            }
            end_categories.push((row, col));
            i += 1;
        }
        end_categories
    }
}

/// Whether a block that ends at `end` is empty: it ends at its anchor, so
/// that nothing stands right of the anchor.
pub fn is_empty_range(anchor: (usize, usize), end: (usize, usize)) -> (empty: bool)
    ensures
        empty == (anchor == end),
{
    anchor.0 == end.0 && anchor.1 == end.1
}

/// A block ends in one column only: where [`ends_block`] holds of a column,
/// that column is [`block_end`].
pub proof fn lemma_block_end_is_unique(sheet: Range<DataType>, row: int, col: int, end: int)
    requires
        ends_block(sheet, row, col, end),
    ensures
        block_end(sheet, row, col) == end,
{
    let other = block_end(sheet, row, col);
    assert(ends_block(sheet, row, col, other));
    if other < end {
        assert(cell_at(sheet, row, other + 1) is Some);
    }
    if end < other {
        assert(cell_at(sheet, row, end + 1) is Some);
    }
}

/// A text that some label reads is among the labels.
pub proof fn lemma_hit_is_label(labels: Seq<Text>, text: Text)
    requires
        label_hits(labels, text) > 0,
    ensures
        labels.contains(text),
    decreases labels.len(),
{
    if labels.last() == text {
        assert(labels[labels.len() - 1] == text);
    } else {
        lemma_hit_is_label(labels.drop_last(), text);
        let k = choose|k: int| 0 <= k < labels.drop_last().len() && labels.drop_last()[k] == text;
        assert(labels[k] == text);
    }
}

/// Every anchor found in a cell is the position of that cell, the cell has
/// text, and one of the labels reads that text.
pub proof fn lemma_cell_anchor_reads_label(
    sheet: Range<DataType>,
    labels: Seq<Text>,
    row: int,
    col: int,
    i: int,
)
    requires
        0 <= i < cell_anchors(sheet, labels, row, col).len(),
    ensures
        cell_anchors(sheet, labels, row, col)[i] == (row as usize, col as usize),
        0 <= row <= LAST_POSITION,
        0 <= col <= LAST_POSITION,
        cell_at(sheet, row, col) is Some,
        labels.contains(cell_at(sheet, row, col).unwrap()),
{
    let text = cell_at(sheet, row, col).unwrap();
    lemma_hit_is_label(labels, text);
}

/// Every anchor found in a row lies in that row, within the columns
/// searched, in a cell whose text is one of the labels.
pub proof fn lemma_row_anchor_reads_label(
    sheet: Range<DataType>,
    labels: Seq<Text>,
    row: int,
    cols: nat,
    i: int,
)
    requires
        0 <= i < row_anchors(sheet, labels, row, cols).len(),
    ensures
        ({
            let anchor = row_anchors(sheet, labels, row, cols)[i];
            &&& anchor.0 == row
            &&& anchor.1 < cols
            &&& cell_at(sheet, anchor.0 as int, anchor.1 as int) is Some
            &&& labels.contains(cell_at(sheet, anchor.0 as int, anchor.1 as int).unwrap())
        }),
    decreases cols,
{
    let before = row_anchors(sheet, labels, row, (cols - 1) as nat);
    if i < before.len() {
        lemma_row_anchor_reads_label(sheet, labels, row, (cols - 1) as nat, i);
    } else {
        lemma_cell_anchor_reads_label(sheet, labels, row, cols - 1, i - before.len());
    }
}

/// Every anchor found in a block of rows lies within the block, in a cell
/// whose text is one of the labels.
pub proof fn lemma_block_anchor_reads_label(
    sheet: Range<DataType>,
    labels: Seq<Text>,
    rows: nat,
    cols: nat,
    i: int,
)
    requires
        0 <= i < block_anchors(sheet, labels, rows, cols).len(),
    ensures
        ({
            let anchor = block_anchors(sheet, labels, rows, cols)[i];
            &&& anchor.0 < rows
            &&& anchor.1 < cols
            &&& cell_at(sheet, anchor.0 as int, anchor.1 as int) is Some
            &&& labels.contains(cell_at(sheet, anchor.0 as int, anchor.1 as int).unwrap())
        }),
    decreases rows,
{
    let before = block_anchors(sheet, labels, (rows - 1) as nat, cols);
    if i < before.len() {
        lemma_block_anchor_reads_label(sheet, labels, (rows - 1) as nat, cols, i);
    } else {
        lemma_row_anchor_reads_label(sheet, labels, rows - 1, cols, i - before.len());
    }
}

/// Every anchor of a sheet lies in a cell whose text is one of the labels.
pub proof fn lemma_anchor_reads_label(sheet: Range<DataType>, labels: Seq<Text>, i: int)
    requires
        0 <= i < anchors(sheet, labels).len(),
    ensures
        cell_at(sheet, anchors(sheet, labels)[i].0 as int, anchors(sheet, labels)[i].1 as int)
            is Some,
        labels.contains(
            cell_at(
                sheet,
                anchors(sheet, labels)[i].0 as int,
                anchors(sheet, labels)[i].1 as int,
            ).unwrap(),
        ),
        anchors(sheet, labels)[i].0 < sheet_rows(sheet),
        anchors(sheet, labels)[i].1 < sheet_cols(sheet),
{
    lemma_block_anchor_reads_label(sheet, labels, sheet_rows(sheet), sheet_cols(sheet), i);
}

/// A cell gives as many anchors for a list of labels as for the list without
/// its last label and for that label alone.
proof fn lemma_cell_anchors_add(sheet: Range<DataType>, labels: Seq<Text>, row: int, col: int)
    requires
        labels.len() > 0,
    ensures
        cell_anchors(sheet, labels, row, col).len() == cell_anchors(
            sheet,
            labels.drop_last(),
            row,
            col,
        ).len() + cell_anchors(sheet, seq![labels.last()], row, col).len(),
{
    let alone = seq![labels.last()];
    assert(alone.drop_last() =~= Seq::<Text>::empty());
    assert(alone.last() == labels.last());
    match cell_at(sheet, row, col) {
        Some(text) => {
            assert(label_hits(alone.drop_last(), text) == 0);
        },
        None => {},
    }
}

/// A row gives as many anchors for a list of labels as for the list without
/// its last label and for that label alone.
proof fn lemma_row_anchors_add(sheet: Range<DataType>, labels: Seq<Text>, row: int, cols: nat)
    requires
        labels.len() > 0,
    ensures
        row_anchors(sheet, labels, row, cols).len() == row_anchors(
            sheet,
            labels.drop_last(),
            row,
            cols,
        ).len() + row_anchors(sheet, seq![labels.last()], row, cols).len(),
    decreases cols,
{
    if cols > 0 {
        lemma_row_anchors_add(sheet, labels, row, (cols - 1) as nat);
        lemma_cell_anchors_add(sheet, labels, row, cols - 1);
    }
}

/// A block of rows gives as many anchors for a list of labels as for the
/// list without its last label and for that label alone.
proof fn lemma_block_anchors_add(sheet: Range<DataType>, labels: Seq<Text>, rows: nat, cols: nat)
    requires
        labels.len() > 0,
    ensures
        block_anchors(sheet, labels, rows, cols).len() == block_anchors(
            sheet,
            labels.drop_last(),
            rows,
            cols,
        ).len() + block_anchors(sheet, seq![labels.last()], rows, cols).len(),
    decreases rows,
{
    if rows > 0 {
        lemma_block_anchors_add(sheet, labels, (rows - 1) as nat, cols);
        lemma_row_anchors_add(sheet, labels, rows - 1, cols);
    }
}

/// How many anchors a cell gives for one label: one where it reads the
/// label, else none.
proof fn lemma_cell_anchors_of_one(sheet: Range<DataType>, label: Text, row: int, col: int)
    ensures
        cell_anchors(sheet, seq![label], row, col).len() == if reads(sheet, row, col, label) {
            1nat
        } else {
            0nat
        },
{
    let alone = seq![label];
    assert(alone.drop_last() =~= Seq::<Text>::empty());
    assert(alone.last() == label);
    match cell_at(sheet, row, col) {
        Some(text) => {
            assert(label_hits(alone.drop_last(), text) == 0);
        },
        None => {},
    }
}

/// A row in which no cell reads the label has no anchor for it.
proof fn lemma_row_without_label(sheet: Range<DataType>, label: Text, row: int, cols: nat)
    requires
        forall|c: int| 0 <= c < cols ==> !#[trigger] reads(sheet, row, c, label),
    ensures
        row_anchors(sheet, seq![label], row, cols).len() == 0,
    decreases cols,
{
    if cols > 0 {
        lemma_row_without_label(sheet, label, row, (cols - 1) as nat);
        lemma_cell_anchors_of_one(sheet, label, row, cols - 1);
    }
}

/// A row in which exactly the cell in column `at` reads the label has one
/// anchor for it.
proof fn lemma_row_with_label(sheet: Range<DataType>, label: Text, row: int, cols: nat, at: int)
    requires
        0 <= at < cols,
        reads(sheet, row, at, label),
        forall|c: int| 0 <= c < cols && #[trigger] reads(sheet, row, c, label) ==> c == at,
    ensures
        row_anchors(sheet, seq![label], row, cols).len() == 1,
    decreases cols,
{
    lemma_cell_anchors_of_one(sheet, label, row, cols - 1);
    if at == cols - 1 {
        lemma_row_without_label(sheet, label, row, (cols - 1) as nat);
    } else {
        lemma_row_with_label(sheet, label, row, (cols - 1) as nat, at);
    }
}

/// A block of rows in which no cell reads the label has no anchor for it.
proof fn lemma_block_without_label(sheet: Range<DataType>, label: Text, rows: nat, cols: nat)
    requires
        forall|r: int, c: int|
            0 <= r < rows && 0 <= c < cols ==> !#[trigger] reads(sheet, r, c, label),
    ensures
        block_anchors(sheet, seq![label], rows, cols).len() == 0,
    decreases rows,
{
    if rows > 0 {
        lemma_block_without_label(sheet, label, (rows - 1) as nat, cols);
        lemma_row_without_label(sheet, label, rows - 1, cols);
    }
}

/// A block of rows in which exactly the cell at `(row, col)` reads the label
/// has one anchor for it.
proof fn lemma_block_with_label(
    sheet: Range<DataType>,
    label: Text,
    rows: nat,
    cols: nat,
    row: int,
    col: int,
)
    requires
        0 <= row < rows,
        0 <= col < cols,
        reads(sheet, row, col, label),
        forall|r: int, c: int|
            0 <= r < rows && 0 <= c < cols && #[trigger] reads(sheet, r, c, label) ==> r == row
                && c == col,
    ensures
        block_anchors(sheet, seq![label], rows, cols).len() == 1,
    decreases rows,
{
    if row == rows - 1 {
        lemma_block_without_label(sheet, label, (rows - 1) as nat, cols);
        lemma_row_with_label(sheet, label, row, cols, col);
    } else {
        lemma_block_with_label(sheet, label, (rows - 1) as nat, cols, row, col);
        lemma_row_without_label(sheet, label, rows - 1, cols);
    }
}

/// Without labels a row has no anchors.
proof fn lemma_row_without_labels(sheet: Range<DataType>, row: int, cols: nat)
    ensures
        row_anchors(sheet, Seq::<Text>::empty(), row, cols).len() == 0,
    decreases cols,
{
    if cols > 0 {
        lemma_row_without_labels(sheet, row, (cols - 1) as nat);
    }
}

/// Without labels a block of rows has no anchors.
proof fn lemma_block_without_labels(sheet: Range<DataType>, rows: nat, cols: nat)
    ensures
        block_anchors(sheet, Seq::<Text>::empty(), rows, cols).len() == 0,
    decreases rows,
{
    if rows > 0 {
        lemma_block_without_labels(sheet, (rows - 1) as nat, cols);
        lemma_row_without_labels(sheet, rows - 1, cols);
    }
}

/// Where each label is read by exactly one cell of the sheet, the sheet has
/// as many anchors as there are labels.
proof fn lemma_as_many_anchors_as_labels(sheet: Range<DataType>, labels: Seq<Text>)
    requires
        forall|i: int| 0 <= i < labels.len() ==> read_once(sheet, #[trigger] labels[i]),
    ensures
        anchors(sheet, labels).len() == labels.len(),
    decreases labels.len(),
{
    if labels.len() > 0 {
        let fewer = labels.drop_last();
        assert forall|i: int| 0 <= i < fewer.len() implies read_once(
            sheet,
            #[trigger] fewer[i],
        ) by {
            assert(fewer[i] == labels[i]);
        }
        lemma_as_many_anchors_as_labels(sheet, fewer);
        lemma_block_anchors_add(sheet, labels, sheet_rows(sheet), sheet_cols(sheet));
        let label = labels.last();
        assert(read_once(sheet, labels[labels.len() - 1]));
        let (row, col) = choose|row: int, col: int|
            0 <= row < sheet_rows(sheet) && 0 <= col < sheet_cols(sheet) && #[trigger] reads(
                sheet,
                row,
                col,
                label,
            ) && forall|r: int, c: int|
                0 <= r < sheet_rows(sheet) && 0 <= c < sheet_cols(sheet) && #[trigger] reads(
                    sheet,
                    r,
                    c,
                    label,
                ) ==> r == row && c == col;
        lemma_block_with_label(sheet, label, sheet_rows(sheet), sheet_cols(sheet), row, col);
    } else {
        assert(labels =~= Seq::<Text>::empty());
        lemma_block_without_labels(sheet, sheet_rows(sheet), sheet_cols(sheet));
    }
}

/// Where each label is read by exactly one cell of the sheet, the sheet has
/// as many anchors as there are labels, so that
/// [`PdfFile::search_cells_coordinates`] succeeds for these labels, and each
/// anchor is a cell of the sheet that reads one of the labels.
pub proof fn lemma_one_anchor_for_each_label(sheet: Range<DataType>, labels: Seq<Text>)
    requires
        forall|i: int| 0 <= i < labels.len() ==> read_once(sheet, #[trigger] labels[i]),
    ensures
        anchors(sheet, labels).len() == labels.len(),
        forall|i: int|
            0 <= i < labels.len() ==> {
                let anchor = #[trigger] anchors(sheet, labels)[i];
                &&& anchor.0 < sheet_rows(sheet)
                &&& anchor.1 < sheet_cols(sheet)
                &&& cell_at(sheet, anchor.0 as int, anchor.1 as int) is Some
                &&& labels.contains(cell_at(sheet, anchor.0 as int, anchor.1 as int).unwrap())
            },
{
    lemma_as_many_anchors_as_labels(sheet, labels);
    assert forall|i: int| 0 <= i < labels.len() implies {
        let anchor = #[trigger] anchors(sheet, labels)[i];
        &&& anchor.0 < sheet_rows(sheet)
        &&& anchor.1 < sheet_cols(sheet)
        &&& cell_at(sheet, anchor.0 as int, anchor.1 as int) is Some
        &&& labels.contains(cell_at(sheet, anchor.0 as int, anchor.1 as int).unwrap())
    } by {
        lemma_anchor_reads_label(sheet, labels, i);
    }
}

/// Whether the position `a` comes before `b`, row by row and from left to
/// right within a row.
pub open spec fn comes_before(a: (usize, usize), b: (usize, usize)) -> bool {
    a.0 < b.0 || (a.0 == b.0 && a.1 < b.1)
}

/// A text that is among the labels is read by one of them.
proof fn lemma_label_is_hit(labels: Seq<Text>, text: Text)
    requires
        labels.contains(text),
    ensures
        label_hits(labels, text) >= 1,
    decreases labels.len(),
{
    if labels.last() != text {
        let k = choose|k: int| 0 <= k < labels.len() && labels[k] == text;
        assert(labels.drop_last()[k] == text);
        lemma_label_is_hit(labels.drop_last(), text);
    }
}

/// Among labels that differ from each other, at most one reads a text.
proof fn lemma_distinct_labels_hit_once(labels: Seq<Text>, text: Text)
    requires
        labels.no_duplicates(),
    ensures
        label_hits(labels, text) <= 1,
    decreases labels.len(),
{
    if labels.len() > 0 {
        let fewer = labels.drop_last();
        lemma_distinct_labels_hit_once(fewer, text);
        if labels.last() == text && label_hits(fewer, text) > 0 {
            lemma_hit_is_label(fewer, text);
            let k = choose|k: int| 0 <= k < fewer.len() && fewer[k] == text;
            assert(labels[k] == labels[labels.len() - 1]);
        }
    }
}

/// For labels that differ from each other, the anchors of a row lie in that
/// row, within the columns searched, each right of the one before.
proof fn lemma_row_anchors_rise(sheet: Range<DataType>, labels: Seq<Text>, row: int, cols: nat)
    requires
        labels.no_duplicates(),
    ensures
        forall|i: int|
            0 <= i < row_anchors(sheet, labels, row, cols).len() ==> (#[trigger] row_anchors(
                sheet,
                labels,
                row,
                cols,
            )[i]).0 == row && row_anchors(sheet, labels, row, cols)[i].1 < cols,
        forall|i: int, j: int|
            0 <= i < j < row_anchors(sheet, labels, row, cols).len() ==> (#[trigger] row_anchors(
                sheet,
                labels,
                row,
                cols,
            )[i]).1 < (#[trigger] row_anchors(sheet, labels, row, cols)[j]).1,
    decreases cols,
{
    if cols > 0 {
        lemma_row_anchors_rise(sheet, labels, row, (cols - 1) as nat);
        let before = row_anchors(sheet, labels, row, (cols - 1) as nat);
        let cell = cell_anchors(sheet, labels, row, cols - 1);
        match cell_at(sheet, row, cols - 1) {
            Some(text) => {
                lemma_distinct_labels_hit_once(labels, text);
            },
            None => {},
        }
        assert(cell.len() <= 1);
        let all = row_anchors(sheet, labels, row, cols);
        assert forall|i: int| 0 <= i < all.len() implies (#[trigger] all[i]).0 == row && all[i].1
            < cols && (i >= before.len() ==> all[i].1 == cols - 1) by {
            if i < before.len() {
                assert(all[i] == before[i]);
            } else {
                assert(all[i] == cell[i - before.len()]);
            }
        }
        assert forall|i: int, j: int| 0 <= i < j < all.len() implies (#[trigger] all[i]).1 < (
        #[trigger] all[j]).1 by {
            if j < before.len() {
                assert(all[i] == before[i]);
                assert(all[j] == before[j]);
            } else {
                assert(all[i] == before[i]);
            }
        }
    }
}

/// For labels that differ from each other, the anchors of a block of rows
/// lie within the block, each after the one before.
proof fn lemma_block_anchors_rise(sheet: Range<DataType>, labels: Seq<Text>, rows: nat, cols: nat)
    requires
        labels.no_duplicates(),
    ensures
        forall|i: int|
            0 <= i < block_anchors(sheet, labels, rows, cols).len() ==> (#[trigger] block_anchors(
                sheet,
                labels,
                rows,
                cols,
            )[i]).0 < rows,
        forall|i: int, j: int|
            0 <= i < j < block_anchors(sheet, labels, rows, cols).len() ==> comes_before(
                #[trigger] block_anchors(sheet, labels, rows, cols)[i],
                #[trigger] block_anchors(sheet, labels, rows, cols)[j],
            ),
    decreases rows,
{
    if rows > 0 {
        lemma_block_anchors_rise(sheet, labels, (rows - 1) as nat, cols);
        lemma_row_anchors_rise(sheet, labels, rows - 1, cols);
        let before = block_anchors(sheet, labels, (rows - 1) as nat, cols);
        let last = row_anchors(sheet, labels, rows - 1, cols);
        let all = block_anchors(sheet, labels, rows, cols);
        assert forall|i: int| 0 <= i < all.len() implies (#[trigger] all[i]).0 < rows && (i
            >= before.len() ==> all[i].0 == rows - 1) && (i < before.len() ==> all[i].0 < rows
            - 1) by {
            if i < before.len() {
                assert(all[i] == before[i]);
            } else {
                assert(all[i] == last[i - before.len()]);
            }
        }
        assert forall|i: int, j: int| 0 <= i < j < all.len() implies comes_before(
            #[trigger] all[i],
            #[trigger] all[j],
        ) by {
            if j < before.len() {
                assert(all[i] == before[i]);
                assert(all[j] == before[j]);
            } else if i < before.len() {
                assert(all[i] == before[i]);
                assert(all[j] == last[j - before.len()]);
            } else {
                assert(all[i] == last[i - before.len()]);
                assert(all[j] == last[j - before.len()]);
            }
        }
    }
}

/// A cell of a row that reads one of the labels is among the anchors of the
/// row. Gives the place of the cell among them.
proof fn lemma_cell_is_row_anchor(
    sheet: Range<DataType>,
    labels: Seq<Text>,
    row: int,
    cols: nat,
    col: int,
) -> (i: int)
    requires
        0 <= col < cols,
        cell_at(sheet, row, col) is Some,
        labels.contains(cell_at(sheet, row, col).unwrap()),
    ensures
        0 <= i < row_anchors(sheet, labels, row, cols).len(),
        row_anchors(sheet, labels, row, cols)[i] == (row as usize, col as usize),
    decreases cols,
{
    let before = row_anchors(sheet, labels, row, (cols - 1) as nat);
    if col == cols - 1 {
        lemma_label_is_hit(labels, cell_at(sheet, row, col).unwrap());
        assert(cell_anchors(sheet, labels, row, col)[0] == (row as usize, col as usize));
        before.len() as int
    } else {
        lemma_cell_is_row_anchor(sheet, labels, row, (cols - 1) as nat, col)
    }
}

/// A cell of a block of rows that reads one of the labels is among the
/// anchors of the block. Gives the place of the cell among them.
proof fn lemma_cell_is_block_anchor(
    sheet: Range<DataType>,
    labels: Seq<Text>,
    rows: nat,
    cols: nat,
    row: int,
    col: int,
) -> (i: int)
    requires
        0 <= row < rows,
        0 <= col < cols,
        cell_at(sheet, row, col) is Some,
        labels.contains(cell_at(sheet, row, col).unwrap()),
    ensures
        0 <= i < block_anchors(sheet, labels, rows, cols).len(),
        block_anchors(sheet, labels, rows, cols)[i] == (row as usize, col as usize),
    decreases rows,
{
    let before = block_anchors(sheet, labels, (rows - 1) as nat, cols);
    if row == rows - 1 {
        let k = lemma_cell_is_row_anchor(sheet, labels, row, cols, col);
        before.len() + k
    } else {
        lemma_cell_is_block_anchor(sheet, labels, (rows - 1) as nat, cols, row, col)
    }
}

/// For labels that differ from each other and are each read by exactly one
/// cell of the sheet, the anchors come strictly row by row and from left to
/// right within a row, none of them twice, and each label is read by the
/// cell of exactly one anchor.
pub proof fn lemma_anchors_of_distinct_labels(sheet: Range<DataType>, labels: Seq<Text>)
    requires
        labels.no_duplicates(),
        forall|i: int| 0 <= i < labels.len() ==> read_once(sheet, #[trigger] labels[i]),
    ensures
        forall|i: int, j: int|
            0 <= i < j < anchors(sheet, labels).len() ==> comes_before(
                #[trigger] anchors(sheet, labels)[i],
                #[trigger] anchors(sheet, labels)[j],
            ),
        anchors(sheet, labels).no_duplicates(),
        forall|l: int|
            0 <= l < labels.len() ==> read_by_one_anchor(sheet, labels, #[trigger] labels[l]),
{
    let found = anchors(sheet, labels);
    lemma_block_anchors_rise(sheet, labels, sheet_rows(sheet), sheet_cols(sheet));
    assert forall|l: int| 0 <= l < labels.len() implies read_by_one_anchor(
        sheet,
        labels,
        #[trigger] labels[l],
    ) by {
        let label = labels[l];
        assert(read_once(sheet, labels[l]));
        let (row, col) = choose|row: int, col: int|
            0 <= row < sheet_rows(sheet) && 0 <= col < sheet_cols(sheet) && #[trigger] reads(
                sheet,
                row,
                col,
                label,
            ) && forall|r: int, c: int|
                0 <= r < sheet_rows(sheet) && 0 <= c < sheet_cols(sheet) && #[trigger] reads(
                    sheet,
                    r,
                    c,
                    label,
                ) ==> r == row && c == col;
        assert(labels.contains(label));
        let i = lemma_cell_is_block_anchor(
            sheet,
            labels,
            sheet_rows(sheet),
            sheet_cols(sheet),
            row,
            col,
        );
        assert(reads_label(sheet, labels, i, label));
        assert forall|j: int| 0 <= j < found.len() && reads_label(sheet, labels, j, label) implies j
            == i by {
            lemma_anchor_reads_label(sheet, labels, j);
            assert(reads(sheet, found[j].0 as int, found[j].1 as int, label));
            assert(found[j] == found[i]);
            if j < i {
                assert(comes_before(found[j], found[i]));
            }
            if i < j {
                assert(comes_before(found[i], found[j]));
            }
        }
    }
}

} // verus!
