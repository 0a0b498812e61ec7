//! Assembles the table of one category for one product from the flat values
//! read off the sheet: cuts them into groups, leaves out what is empty, puts
//! in the product's values and turns columns into rows.

use vstd::prelude::*;
use crate::error::SheetError;
use crate::text::Text;

verus! {

/// Whether `len` values can be cut into blocks of `block` values each.
pub open spec fn fits_blocks(len: nat, block: nat) -> bool {
    block > 0 && len % block == 0
}

/// `flat` cut into consecutive groups of `block` values: group `g` holds the
/// values from position `g * block` on.
pub open spec fn reshaped(flat: Seq<Text>, block: nat) -> Seq<Seq<Text>>
    recommends
        block > 0,
{
    Seq::new(
        (flat.len() / block) as nat,
        |g: int| flat.subrange(g * block, g * block + block),
    )
}

/// Whether every value of a group is the empty text.
pub open spec fn all_empty(group: Seq<Text>) -> bool {
    forall|k: int| 0 <= k < group.len() ==> (#[trigger] group[k]).len() == 0
}

/// The groups that hold at least one non-empty value, in their order.
pub open spec fn retained(groups: Seq<Seq<Text>>) -> Seq<Seq<Text>>
    decreases groups.len(),
{
    if groups.len() == 0 {
        Seq::empty()
    } else if all_empty(groups.last()) {
        retained(groups.drop_last())
    } else {
        retained(groups.drop_last()).push(groups.last())
    }
}

/// The positions of the groups whose values are all empty, in rising order.
pub open spec fn dropped_columns(groups: Seq<Seq<Text>>) -> Seq<usize>
    decreases groups.len(),
{
    if groups.len() == 0 {
        Seq::empty()
    } else if all_empty(groups.last()) {
        dropped_columns(groups.drop_last()).push((groups.len() - 1) as usize)
    } else {
        dropped_columns(groups.drop_last())
    }
}

/// `groups` with `column` as its second entry, or as its only entry where
/// `groups` is empty.
pub open spec fn with_second<A>(groups: Seq<A>, column: A) -> Seq<A> {
    if groups.len() == 0 {
        seq![column]
    } else {
        groups.insert(1, column)
    }
}

/// The value of a column in row `i`: the empty text where the column is
/// shorter than that.
pub open spec fn cell_in_row(column: Seq<Text>, i: int) -> Text {
    if 0 <= i < column.len() {
        column[i]
    } else {
        Seq::empty()
    }
}

/// Row `i` across `columns`.
pub open spec fn row_across(columns: Seq<Seq<Text>>, i: int) -> Seq<Text> {
    Seq::new(columns.len(), |j: int| cell_in_row(columns[j], i))
}

/// Whether a row stays in a table: it does unless its second cell is the
/// empty text.
pub open spec fn keeps_row(row: Seq<Text>) -> bool {
    row.len() < 2 || row[1].len() > 0
}

/// The rows that stay, in their order.
pub open spec fn kept_rows(rows: Seq<Seq<Text>>) -> Seq<Seq<Text>>
    decreases rows.len(),
{
    if rows.len() == 0 {
        Seq::empty()
    } else if keeps_row(rows.last()) {
        kept_rows(rows.drop_last()).push(rows.last())
    } else {
        kept_rows(rows.drop_last())
    }
}

/// The first `count` rows across `columns`.
pub open spec fn rows_across(columns: Seq<Seq<Text>>, count: nat) -> Seq<Seq<Text>> {
    Seq::new(count, |i: int| row_across(columns, i))
}

/// `columns` turned into rows, as many as the first column is long, without
/// the rows whose second cell is empty.
pub open spec fn transposed(columns: Seq<Seq<Text>>) -> Seq<Seq<Text>> {
    if columns.len() == 0 {
        Seq::empty()
    } else {
        kept_rows(rows_across(columns, columns[0].len()))
    }
}

/// The table of one category for one product: the flat `raw` values cut into
/// groups of `block`, without the groups that are empty throughout, with the
/// product's values as second column, turned into rows.
pub open spec fn assembled(raw: Seq<Text>, product: Seq<Text>, block: nat) -> Seq<Seq<Text>>
    recommends
        block > 0,
{
    transposed(with_second(retained(reshaped(raw, block)), product))
}

/// A copy of `cells`.
pub fn copy_cells(cells: &Vec<String>) -> (copy: Vec<String>)
    ensures
        copy.deep_view() == cells.deep_view(),
{
    let mut copy: Vec<String> = Vec::new();
    let mut i: usize = 0;
    while i < cells.len()
        invariant
            i <= cells.len(),
            copy.deep_view() == cells.deep_view().take(i as int),
        decreases cells.len() - i,
    {
        let ghost before = copy.deep_view();
        copy.push(cells[i].clone());
        proof {
            assert(copy.deep_view() =~= before.push(cells[i as int]@));
        }
        i += 1;
    }
    copy
}

/// Whether `index` is among `indices`.
pub(crate) fn is_listed(indices: &Vec<usize>, index: usize) -> (listed: bool)
    ensures
        listed == indices@.contains(index),
{
    let mut k: usize = 0;
    while k < indices.len()
        invariant
            k <= indices.len(),
            forall|i: int| 0 <= i < k ==> indices@[i] != index,
        decreases indices.len() - k,
    {
        if indices[k] == index {
            return true;
        }
        k += 1;
    }
    false
}

/// Cuts a flat sequence of values into groups of `nb_param` consecutive
/// values. Fails where the values cannot be cut up evenly.
pub fn reshape_vector_by_col(single_shape_vec: Vec<String>, nb_param: usize) -> (result: Result<
    Vec<Vec<String>>,
    SheetError,
>)
    ensures
        fits_blocks(single_shape_vec.len() as nat, nb_param as nat) ==> result is Ok
            && result->Ok_0.deep_view() == reshaped(
            single_shape_vec.deep_view(),
            nb_param as nat,
        ),
        !fits_blocks(single_shape_vec.len() as nat, nb_param as nat) ==> result == Err::<
            Vec<Vec<String>>,
            SheetError,
        >(SheetError::MalformedBlock { len: single_shape_vec.len(), block: nb_param, label: None }),
{
    let len = single_shape_vec.len();
    if nb_param == 0 || len % nb_param != 0 {
        return Err(SheetError::MalformedBlock { len, block: nb_param, label: None });
    }
    let count = len / nb_param;
    let ghost flat = single_shape_vec.deep_view();
    let ghost goal = reshaped(flat, nb_param as nat);
    let mut reshaped_param: Vec<Vec<String>> = Vec::new();
    let mut g: usize = 0;
    let mut base: usize = 0;
    proof {
        assert(count * nb_param == len) by (nonlinear_arith)
            requires
                count == len / nb_param,
                len % nb_param == 0,
                nb_param > 0,
        ;
    }
    while g < count
        invariant
            g <= count,
            nb_param > 0,
            len == single_shape_vec.len(),
            count * nb_param == len,
            base == g * nb_param,
            flat == single_shape_vec.deep_view(),
            goal == reshaped(flat, nb_param as nat),
            goal.len() == count,
            reshaped_param.deep_view() == goal.take(g as int),
        decreases count - g,
    {
        proof {
            assert((g + 1) * nb_param <= count * nb_param) by (nonlinear_arith)
                requires
                    g + 1 <= count,
                    nb_param > 0,
            ;
            assert((g + 1) * nb_param == g * nb_param + nb_param) by (nonlinear_arith);
        }
        let mut buff_vec: Vec<String> = Vec::new();
        let mut j: usize = 0;
        while j < nb_param
            invariant
                j <= nb_param,
                base + nb_param <= len,
                len == single_shape_vec.len(),
                flat == single_shape_vec.deep_view(),
                buff_vec.deep_view() == flat.subrange(base as int, base + j),
            decreases nb_param - j,
        {
            let ghost before = buff_vec.deep_view();
            buff_vec.push(single_shape_vec[base + j].clone());
            proof {
                assert(buff_vec.deep_view() =~= before.push(flat[base + j]));
            }
            j += 1;
        }
        let ghost before = reshaped_param.deep_view();
        reshaped_param.push(buff_vec);
        proof {
            assert(reshaped_param.deep_view() =~= before.push(goal[g as int]));
        }
        g += 1;
        base += nb_param;
    }
    Ok(reshaped_param)
}

/// Whether every value of `group` is empty.
fn is_all_empty(group: &Vec<String>) -> (empty: bool)
    ensures
        empty == all_empty(group.deep_view()),
{
    let mut k: usize = 0;
    while k < group.len()
        invariant
            k <= group.len(),
            forall|i: int| 0 <= i < k ==> (#[trigger] group.deep_view()[i]).len() == 0,
        decreases group.len() - k,
    {
        if !group[k].as_str().is_empty() {
            proof {
                assert(group.deep_view()[k as int].len() > 0);
            }
            return false;
        }
        k += 1;
    }
    true
}

/// Takes out the groups whose values are all empty. Returns the groups that
/// are left and the positions of those taken out.
pub fn clean_vector(double_shape_vec: Vec<Vec<String>>) -> (cleaned: (Vec<Vec<String>>, Vec<usize>))
    ensures
        cleaned.0.deep_view() == retained(double_shape_vec.deep_view()),
        cleaned.1@ == dropped_columns(double_shape_vec.deep_view()),
{
    let ghost groups = double_shape_vec.deep_view();
    let mut resized_vec: Vec<Vec<String>> = Vec::new();
    let mut useless_col: Vec<usize> = Vec::new();
    let mut i: usize = 0;
    while i < double_shape_vec.len()
        invariant
            i <= double_shape_vec.len(),
            groups == double_shape_vec.deep_view(),
            resized_vec.deep_view() == retained(groups.take(i as int)),
            useless_col@ == dropped_columns(groups.take(i as int)),
        decreases double_shape_vec.len() - i,
    {
        proof {
            assert(groups.take(i + 1).drop_last() =~= groups.take(i as int));
        }
        if is_all_empty(&double_shape_vec[i]) {
            useless_col.push(i);
        } else {
            resized_vec.push(copy_cells(&double_shape_vec[i]));
        }
        i += 1;
    }
    proof {
        assert(groups.take(i as int) =~= groups);
    }
    (resized_vec, useless_col)
}

/// Turns columns into rows: row `i` holds what each column has in place `i`.
/// There are as many rows as the first column is long; a column that is
/// shorter gives the empty text. A row whose second cell is empty is left out.
pub fn transpose2dvec(col_vec: Vec<Vec<String>>) -> (output: Vec<Vec<String>>)
    ensures
        output.deep_view() == transposed(col_vec.deep_view()),
{
    let size_col = col_vec.len();
    let mut output: Vec<Vec<String>> = Vec::new();
    if size_col == 0 {
        return output;
    }
    let size_row = col_vec[0].len();
    let ghost columns = col_vec.deep_view();
    let ghost rows = rows_across(columns, size_row as nat);
    let mut i: usize = 0;
    while i < size_row
        invariant
            i <= size_row,
            size_col == col_vec.len(),
            columns == col_vec.deep_view(),
            rows == rows_across(columns, size_row as nat),
            output.deep_view() == kept_rows(rows.take(i as int)),
        decreases size_row - i,
    {
        let mut buff_vec: Vec<String> = Vec::new();
        let mut j: usize = 0;
        while j < size_col
            invariant
                j <= size_col,
                size_col == col_vec.len(),
                columns == col_vec.deep_view(),
                buff_vec.deep_view() == row_across(columns, i as int).take(j as int),
            decreases size_col - j,
        {
            let ghost before = buff_vec.deep_view();
            let cell = if i < col_vec[j].len() {
                col_vec[j][i].clone()
            } else {
                String::new()
            };
            buff_vec.push(cell);
            proof {
                assert(buff_vec.deep_view() =~= before.push(cell@));
            }
            j += 1;
        }
        proof {
            assert(row_across(columns, i as int).take(j as int) =~= row_across(columns, i as int));
            assert(rows.take(i + 1).drop_last() =~= rows.take(i as int));
        }
        if buff_vec.len() < 2 || !buff_vec[1].as_str().is_empty() {
            let ghost before = output.deep_view();
            output.push(buff_vec);
        }
        i += 1;
    }
    proof {
        assert(rows.take(i as int) =~= rows);
    }
    output
}

/// Builds the table of one category for one product. `parameters` holds the
/// category's flat values, `nb_param` to a group, and `content` the product's
/// values. Returns the rows of the table and the positions of the groups that
/// were left out because they were empty throughout. Fails where `parameters`
/// cannot be cut into groups of `nb_param`.
pub fn clean_content(parameters: &Vec<String>, content: &Vec<String>, nb_param: usize) -> (result:
    Result<(Vec<Vec<String>>, Vec<usize>), SheetError>)
    ensures
        fits_blocks(parameters.len() as nat, nb_param as nat) ==> result is Ok
            && result->Ok_0.0.deep_view() == assembled(
            parameters.deep_view(),
            content.deep_view(),
            nb_param as nat,
        ) && result->Ok_0.1@ == dropped_columns(
            reshaped(parameters.deep_view(), nb_param as nat),
        ),
        !fits_blocks(parameters.len() as nat, nb_param as nat) ==> result == Err::<
            (Vec<Vec<String>>, Vec<usize>),
            SheetError,
        >(SheetError::MalformedBlock { len: parameters.len(), block: nb_param, label: None }),
{
    let groups = match reshape_vector_by_col(copy_cells(parameters), nb_param) {
        Ok(groups) => groups,
        Err(_) => {
            return Err(
                SheetError::MalformedBlock { len: parameters.len(), block: nb_param, label: None },
            );
        },
    };
    let (mut clean_param, useless_col) = clean_vector(groups);
    let ghost kept = clean_param.deep_view();
    let column = copy_cells(content);
    if clean_param.len() == 0 {
        clean_param.push(column);
    } else {
        clean_param.insert(1, column);
    }
    proof {
        assert(clean_param.deep_view() =~= with_second(kept, content.deep_view()));
    }
    Ok((transpose2dvec(clean_param), useless_col))
}

/// Rows that all stay are kept as they are.
proof fn lemma_all_rows_kept(rows: Seq<Seq<Text>>)
    requires
        forall|i: int| 0 <= i < rows.len() ==> keeps_row(#[trigger] rows[i]),
    ensures
        kept_rows(rows) == rows,
    decreases rows.len(),
{
    if rows.len() > 0 {
        lemma_all_rows_kept(rows.drop_last());
    }
}

/// Group `j` of `k` groups of `n` values lies within the `k * n` values.
proof fn lemma_group_bounds(j: int, k: nat, n: nat)
    requires
        0 <= j < k,
    ensures
        0 <= j * n,
        j * n + n <= k * n,
{
    assert(0 <= j * n && j * n + n <= k * n) by (nonlinear_arith)
        requires
            0 <= j < k,
            n >= 0,
    ;
}

/// Cutting `k * n` values, none of them empty, into groups of `n` and turning
/// the `k` groups into rows gives `n` rows of `k` cells, and the cell in row
/// `i` and column `j` is the value at position `j * n + i`.
pub proof fn lemma_reshape_then_transpose(flat: Seq<Text>, k: nat, n: nat)
    requires
        k >= 1,
        n >= 1,
        flat.len() == k * n,
        forall|i: int| 0 <= i < flat.len() ==> (#[trigger] flat[i]).len() > 0,
    ensures
        fits_blocks(flat.len(), n),
        transposed(reshaped(flat, n)).len() == n,
        forall|i: int| 0 <= i < n ==> (#[trigger] transposed(reshaped(flat, n))[i]).len() == k,
        forall|i: int, j: int|
            0 <= i < n && 0 <= j < k ==> #[trigger] transposed(reshaped(flat, n))[i][j] == flat[j
                * n + i],
{
    assert((k * n) / n == k && (k * n) % n == 0) by (nonlinear_arith)
        requires
            n >= 1,
    ;
    let groups = reshaped(flat, n);
    lemma_group_bounds(0, k, n);
    let rows = rows_across(groups, n);
    assert forall|i: int| 0 <= i < rows.len() implies keeps_row(#[trigger] rows[i]) by {
        if k >= 2 {
            lemma_group_bounds(1, k, n);
        }
    }
    lemma_all_rows_kept(rows);
    assert forall|i: int, j: int| 0 <= i < n && 0 <= j < k implies #[trigger] transposed(
        groups,
    )[i][j] == flat[j * n + i] by {
        lemma_group_bounds(j, k, n);
    }
}

/// A position is among the dropped columns exactly where the group at that
/// position is empty throughout.
pub proof fn lemma_dropped_means_empty(groups: Seq<Seq<Text>>, i: usize)
    requires
        groups.len() <= usize::MAX,
    ensures
        dropped_columns(groups).contains(i) <==> i < groups.len() && all_empty(groups[i as int]),
    decreases groups.len(),
{
    if groups.len() > 0 {
        let fewer = groups.drop_last();
        let last = (groups.len() - 1) as usize;
        lemma_dropped_means_empty(fewer, i);
        if all_empty(groups.last()) {
            let dropped = dropped_columns(fewer).push(last);
            assert(dropped.last() == last);
            if dropped_columns(fewer).contains(i) {
                let at = choose|at: int|
                    0 <= at < dropped_columns(fewer).len() && dropped_columns(fewer)[at] == i;
                assert(dropped[at] == i);
            }
            if dropped.contains(i) && i != last {
                let at = choose|at: int| 0 <= at < dropped.len() && dropped[at] == i;
            }
        }
    }
}

/// Where all rows have the same number of cells, so have the rows that stay.
pub proof fn lemma_kept_rows_width(rows: Seq<Seq<Text>>, width: nat)
    requires
        forall|i: int| 0 <= i < rows.len() ==> (#[trigger] rows[i]).len() == width,
    ensures
        forall|i: int| 0 <= i < kept_rows(rows).len() ==> (#[trigger] kept_rows(rows)[i]).len()
            == width,
    decreases rows.len(),
{
    if rows.len() > 0 {
        let fewer = rows.drop_last();
        assert forall|i: int| 0 <= i < fewer.len() implies (#[trigger] fewer[i]).len() == width by {
            assert(fewer[i] == rows[i]);
        }
        lemma_kept_rows_width(fewer, width);
        assert forall|i: int| 0 <= i < kept_rows(rows).len() implies (#[trigger] kept_rows(
            rows,
        )[i]).len() == width by {
            if i < kept_rows(fewer).len() {
                assert(kept_rows(rows)[i] == kept_rows(fewer)[i]);
            } else {
                assert(kept_rows(rows)[i] == rows[rows.len() - 1]);
            }
        }
    }
}

} // verus!
