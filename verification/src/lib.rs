//! Turns a sheet of product specifications into the data sheets of the
//! products.
//!
//! A sheet is an unstructured grid of cells. Three kinds of labelled cells,
//! the anchors, give it its structure: categories, parameters and products.
//! From the anchors the library finds the block of each category, reads the
//! values of the categories and of the products, assembles one table for each
//! product and category, lays the tables out and typesets them, page by page,
//! into a document.
//!
//! - [`sheet`]: the cells of a worksheet.
//! - [`locator`]: where the anchors are and how far their blocks reach.
//! - [`extractor`]: the values of given cells, of categories and of products.
//! - [`assembly`]: from flat values to the rows of a table.
//! - [`layout`]: one column or two.
//! - [`tab_creation`]: the markup of a table.
//! - [`page`]: the document that pages are appended to.
//! - [`job`]: everything that one document needs from a sheet.
//! - [`composer`]: the preamble, the page of contents and the product pages.
//! - [`config_xlsx`]: the configuration of a run and of each document.
//! - [`tabular_tex`]: a plain table that needs no sheet.
//! - [`error`]: what can go wrong.
//! - [`text`]: joining, repeating and replacing text, and writing numbers.

pub mod assembly;
pub mod composer;
pub mod config_xlsx;
pub mod error;
pub mod extractor;
pub mod job;
pub mod layout;
pub mod locator;
pub mod page;
pub mod sheet;
pub mod tab_creation;
pub mod tabular_tex;
pub mod text;

pub use config_xlsx::{AlignTab, Config, ConfigXlsx, PdfFile, TabParameters};
pub use error::SheetError;
