//! Lays a table out on the page: in one column, or split into two columns
//! side by side.

use vstd::prelude::*;
use crate::assembly::{copy_cells, is_listed};
use crate::text::Text;

verus! {

/// Tables of up to this many rows are set in a single column.
pub const SINGLE_COLUMN_ROWS: usize = 13;

/// A first cell of more characters than this makes its row taller.
pub const WIDE_CELL_CHARS: usize = 26;

/// What is appended to a first cell to make its row taller.
pub const ROW_RULE: &'static str = " \\rule{80pt}{0pt}";

/// Whether the first cell of a row is wider than [`WIDE_CELL_CHARS`]
/// characters.
pub open spec fn is_wide(row: Seq<Text>) -> bool {
    row.len() > 0 && row[0].len() > WIDE_CELL_CHARS
}

/// The positions of the rows with a wide first cell, in rising order.
pub open spec fn wide_rows(rows: Seq<Seq<Text>>) -> Seq<usize>
    decreases rows.len(),
{
    if rows.len() == 0 {
        Seq::empty()
    } else if is_wide(rows.last()) {
        wide_rows(rows.drop_last()).push((rows.len() - 1) as usize)
    } else {
        wide_rows(rows.drop_last())
    }
}

/// A row with the spacing rule behind its first cell. A row without cells
/// stays as it is.
pub open spec fn with_rule(row: Seq<Text>) -> Seq<Text> {
    if row.len() == 0 {
        row
    } else {
        row.update(0, row[0] + ROW_RULE@)
    }
}

/// `rows` with the spacing rule in each row whose position is among
/// `indices`.
pub open spec fn with_rules(rows: Seq<Seq<Text>>, indices: Seq<usize>) -> Seq<Seq<Text>> {
    Seq::new(
        rows.len(),
        |i: int|
            if indices.contains(i as usize) {
                with_rule(rows[i])
            } else {
                rows[i]
            },
    )
}

/// The positions of the rows whose first cell has more than
/// [`WIDE_CELL_CHARS`] characters.
pub fn find_larger_rows(content: &Vec<Vec<String>>) -> (indices_bigger_row: Vec<usize>)
    ensures
        indices_bigger_row@ == wide_rows(content.deep_view()),
{
    let ghost rows = content.deep_view();
    let mut indices_bigger_row: Vec<usize> = Vec::new();
    let mut i: usize = 0;
    while i < content.len()
        invariant
            i <= content.len(),
            rows == content.deep_view(),
            indices_bigger_row@ == wide_rows(rows.take(i as int)),
        decreases content.len() - i,
    {
        proof {
            assert(rows.take(i + 1).drop_last() =~= rows.take(i as int));
        }
        if content[i].len() > 0 && content[i][0].as_str().unicode_len() > WIDE_CELL_CHARS {
            indices_bigger_row.push(i);
        }
        i += 1;
    }
    proof {
        assert(rows.take(i as int) =~= rows);
    }
    indices_bigger_row
}

/// A copy of `row` with the spacing rule behind its first cell.
fn add_rule(row: &Vec<String>) -> (ruled: Vec<String>)
    ensures
        ruled.deep_view() == with_rule(row.deep_view()),
{
    let mut ruled = copy_cells(row);
    if ruled.len() > 0 {
        let mut first = ruled[0].clone();
        first.append(ROW_RULE);
        ruled.set(0, first);
    }
    ruled
}

/// Puts the spacing rule behind the first cell of each row whose position is
/// among `indices`.
pub fn add_rule_row(content: &mut Vec<Vec<String>>, indices: Vec<usize>)
    ensures
        final(content).deep_view() == with_rules(old(content).deep_view(), indices@),
{
    let ghost rows = content.deep_view();
    let ghost goal = with_rules(rows, indices@);
    let mut ruled: Vec<Vec<String>> = Vec::new();
    let mut i: usize = 0;
    while i < content.len()
        invariant
            i <= content.len(),
            rows == content.deep_view(),
            goal == with_rules(rows, indices@),
            ruled.deep_view() == goal.take(i as int),
        decreases content.len() - i,
    {
        let ghost before = ruled.deep_view();
        let row = if is_listed(&indices, i) {
            add_rule(&content[i])
        } else {
            copy_cells(&content[i])
        };
        ruled.push(row);
        proof {
            assert(ruled.deep_view() =~= before.push(goal[i as int]));
        }
        i += 1;
    }
    *content = ruled;
}

/// How a table is laid out on the page.
#[derive(Debug)]
pub enum Layout {
    /// All rows in one column.
    Single(Vec<Vec<String>>),
    /// The rows in two columns side by side.
    TwoColumn {
        /// The rows of the left column.
        left: Vec<Vec<String>>,
        /// The rows of the right column.
        right: Vec<Vec<String>>,
    },
}

/// Whether a table of `rows` rows is set in two columns.
pub open spec fn in_two_columns(rows: nat) -> bool {
    rows > SINGLE_COLUMN_ROWS
}

/// The left column of a table set in two columns: its second half, with the
/// spacing rule wherever the first half has a wide row at the same position.
pub open spec fn left_column(table: Seq<Seq<Text>>) -> Seq<Seq<Text>> {
    let mid = (table.len() / 2) as int;
    with_rules(table.skip(mid), wide_rows(table.take(mid)))
}

/// The right column of a table set in two columns: its first half, with the
/// spacing rule wherever the second half has a wide row at the same position.
pub open spec fn right_column(table: Seq<Seq<Text>>) -> Seq<Seq<Text>> {
    let mid = (table.len() / 2) as int;
    with_rules(table.take(mid), wide_rows(table.skip(mid)))
}

/// Decides the layout of a table. A table of up to [`SINGLE_COLUMN_ROWS`] rows
/// stays in one column. A longer one is split in the middle: its second half
/// becomes the left column and its first half the right one, and a row that
/// faces a wide row in the other column gets the spacing rule.
pub fn plan_layout(table: Vec<Vec<String>>) -> (layout: Layout)
    ensures
        !in_two_columns(table.len() as nat) ==> (layout matches Layout::Single(rows)
            && rows.deep_view() == table.deep_view()),
        in_two_columns(table.len() as nat) ==> (layout matches Layout::TwoColumn { left, right }
            && left.deep_view() == left_column(table.deep_view()) && right.deep_view()
            == right_column(table.deep_view()) && right.len() == table.len() / 2 && left.len()
            == table.len() - table.len() / 2),
{
    if table.len() <= SINGLE_COLUMN_ROWS {
        return Layout::Single(table);
    }
    let ghost rows = table.deep_view();
    let mid = table.len() / 2;
    let mut first_half = table;
    let mut second_half = first_half.split_off(mid);
    proof {
        assert(first_half.deep_view() =~= rows.take(mid as int));
        assert(second_half.deep_view() =~= rows.skip(mid as int));
    }
    let indices_first_half = find_larger_rows(&first_half);
    let indices_second_half = find_larger_rows(&second_half);
    add_rule_row(&mut second_half, indices_first_half);
    add_rule_row(&mut first_half, indices_second_half);
    proof {
        assert(first_half.deep_view().len() == first_half.len());
        assert(second_half.deep_view().len() == second_half.len());
    }
    Layout::TwoColumn { left: second_half, right: first_half }
}

} // verus!
