//! The header row of a managed sheet.

use vstd::prelude::*;

verus! {

/// What a managed sheet says of itself.
#[derive(Clone, Debug, Default, PartialEq)]
pub struct Header {
    pub administrator: Option<String>,
    pub application: Option<String>,
    pub format: Option<String>,
    pub updated_date: Option<String>,
    pub version: Option<String>,
    pub activated: Option<bool>,
}

} // verus!
