//! Codec and data model for a delimiter-separated record protocol, together
//! with the spreadsheet geometry that the surrounding tools share.

pub mod cli;
pub mod codec;
pub mod common;
pub mod models;
pub mod number;
pub mod sheet;
pub mod text;
pub mod zeus;
