//! What can go wrong while a sheet is turned into tables.

use vstd::prelude::*;
use crate::text::{decimal, join, joined, to_decimal, Text};

verus! {

/// The ways in which building a data sheet fails.
#[derive(Debug, Clone, PartialEq, Eq)]
pub enum SheetError {
    /// The number of anchor cells found for a label set differs from the
    /// number of labels: a label is missing from the sheet or occurs twice.
    AnchorCountMismatch {
        /// The labels searched for.
        labels: Vec<String>,
        /// How many anchors there should be.
        expected: usize,
        /// Where anchors were found, row by row.
        found: Vec<(usize, usize)>,
    },
    /// The cell at `(row, col)` is empty where a value is required. Where
    /// the value is that of a product, `product` is the product's name.
    MissingValue { row: usize, col: usize, product: Option<String> },
    /// A flat sequence of `len` values cannot be cut into blocks of `block`.
    /// Where the values are those of a category, `label` is its title.
    MalformedBlock { len: usize, block: usize, label: Option<String> },
    /// Two lists that go entry by entry differ in length: there are `found`
    /// entries where `expected` are needed.
    CountMismatch { expected: usize, found: usize },
    /// Rendering or compiling the finished document failed.
    ExternalToolFailure,
}

/// Whether `error` tells that the `len` values of the category `title` cannot
/// be cut into blocks of `block`.
pub open spec fn is_malformed(error: SheetError, len: nat, block: nat, title: Text) -> bool {
    error matches SheetError::MalformedBlock {
        len: error_len,
        block: error_block,
        label: Some(name),
    } && error_len == len && error_block == block && name@ == title
}

/// What is reported of an error that ended the job `job`.
pub open spec fn report(job: Text, error: SheetError) -> Text {
    match error {
        SheetError::AnchorCountMismatch { labels, expected, found } => job + ": found "@ + decimal(
            found@.len(),
        ) + " anchors for the "@ + decimal(expected as nat) + " labels "@ + joined(
            labels.deep_view(),
            ", "@,
        ),
        SheetError::MissingValue { row, col, product } => job + ": the cell in row "@ + decimal(
            row as nat,
        ) + ", column "@ + decimal(col as nat) + " is empty"@ + match product {
            Some(name) => ", a value of the product "@ + name@,
            None => Seq::empty(),
        },
        SheetError::MalformedBlock { len, block, label } => job + ": "@ + decimal(len as nat)
            + " values cannot be cut into groups of "@ + decimal(block as nat) + match label {
            Some(title) => ", the values of the category "@ + title@,
            None => Seq::empty(),
        },
        SheetError::CountMismatch { expected, found } => job + ": "@ + decimal(found as nat)
            + " entries where "@ + decimal(expected as nat) + " are needed"@,
        SheetError::ExternalToolFailure => job
            + ": the document could not be rendered or compiled"@,
    }
}

impl SheetError {
    /// Says in words what went wrong with the job `job`: the labels and
    /// counts of a mismatch, the cell that is empty and the product it
    /// belongs to, or the block that does not fit and the category it
    /// belongs to.
    pub fn describe(&self, job: &str) -> (text: String)
        ensures
            text@ == report(job@, *self),
    {
        let mut text = job.to_owned();
        match self {
            SheetError::AnchorCountMismatch { labels, expected, found } => {
                text.append(": found ");
                text.append(to_decimal(found.len() as u128).as_str());
                text.append(" anchors for the ");
                text.append(to_decimal(*expected as u128).as_str());
                text.append(" labels ");
                text.append(join(labels, ", ").as_str());
            },
            SheetError::MissingValue { row, col, product } => {
                text.append(": the cell in row ");
                text.append(to_decimal(*row as u128).as_str());
                text.append(", column ");
                text.append(to_decimal(*col as u128).as_str());
                text.append(" is empty");
                if let Some(name) = product {
                    text.append(", a value of the product ");
                    text.append(name.as_str());
                }
            },
            SheetError::MalformedBlock { len, block, label } => {
                text.append(": ");
                text.append(to_decimal(*len as u128).as_str());
                text.append(" values cannot be cut into groups of ");
                text.append(to_decimal(*block as u128).as_str());
                if let Some(title) = label {
                    text.append(", the values of the category ");
                    text.append(title.as_str());
                }
            },
            SheetError::CountMismatch { expected, found } => {
                text.append(": ");
                text.append(to_decimal(*found as u128).as_str());
                text.append(" entries where ");
                text.append(to_decimal(*expected as u128).as_str());
                text.append(" are needed");
            },
            SheetError::ExternalToolFailure => {
                text.append(": the document could not be rendered or compiled");
            },
        }
        text
    }
}

} // verus!
