//! The remote system: where it is reached, how signing in is judged, and
//! the queries that are put to it.

pub mod login;
pub mod query;
