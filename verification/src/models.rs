//! The records that the tools exchange: requests, answers and the rows of
//! the managed sheets.

pub mod apa;
pub mod apc_dir_purc_aply_e;
pub mod dp;
pub mod header;
pub mod metadata;
pub mod raw;
pub mod role;
