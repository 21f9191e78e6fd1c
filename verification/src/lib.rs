//! Formats delimiter-separated text into an aligned table.
//!
//! The work is one linear pass: the raw text is split into a grid of
//! fields, header rows and the optional row of column limits are set apart
//! from the data rows, every data cell is brought into its final form,
//! the column widths are resolved, and the table is rendered.
//!
//! Every function states what it computes over sequences of characters
//! (the views of `&str` and `String`).
pub mod chars;
pub mod width;
pub mod number;
pub mod frame;
pub mod text;
pub mod grid;
pub mod layout;
pub mod cell;
pub mod table;
pub mod columnizer;
