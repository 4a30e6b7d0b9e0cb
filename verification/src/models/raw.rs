//! A row of a managed sheet as it stands there.

use vstd::prelude::*;
use crate::models::metadata::Metadata;

verus! {

/// A row: its state and its data, side by side.
#[derive(Clone, Debug, Default, PartialEq)]
pub struct RawField<F> {
    pub metadata: Metadata,
    pub data: F,
}

} // verus!
