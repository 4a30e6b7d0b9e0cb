//! The worker that manages a sheet: what it is called, how often it runs,
//! and what a row structure must offer to be managed.

use vstd::prelude::*;
use crate::models::metadata::Metadata;

verus! {

/// The name under which the worker goes.
pub const NAMESPACE: &'static str = "whitedog-sheet-system";

/// The seconds between two rounds of the worker.
pub const INTERVAL_SECS: u64 = 10;

/// A row structure that decides on its own updates. Given the row as it was
/// last seen and the state of the row, the new row says what shall stand in
/// the sheet: itself, another row, or nothing; or why the update fails.
pub trait FieldController: Sized {
    fn on_update(self, last: Option<Self>, metadata: Option<Metadata>) -> Result<
        Option<Self>,
        String,
    >;
}

} // verus!
