//! Spreadsheets: cell addresses, ranges, the cells of a range, and the layout
//! of a table whose columns are named by a header range.

pub mod cell;
pub mod column;
pub mod error;
pub mod index;
pub mod iter;
pub mod matrix;
pub mod schema;
pub mod shape;
pub mod table;
pub mod worker;
