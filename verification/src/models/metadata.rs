//! The columns that every row of a managed sheet bears beside its data.

use vstd::prelude::*;

verus! {

/// The state of a row: whether it was confirmed, what it warns of, and the
/// hash of its data.
#[derive(Clone, Debug, Default, PartialEq)]
pub struct Metadata {
    pub confirm: Option<bool>,
    pub alert: Option<String>,
    pub hash: Option<String>,
}

} // verus!
