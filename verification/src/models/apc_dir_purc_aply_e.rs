//! Applications for direct purchases: the request for the list and what the
//! applications hold.

use vstd::prelude::*;

verus! {

/// Where the applications for direct purchases are served.
pub const RESOURCE_URI: &'static str = "/zeus/apc/";

/// A request for the applications of a span of days.
#[derive(Clone, Debug)]
pub struct Request {
    /// The first day, as year, month and day.
    pub aply_fr_dt: Option<String>,
    /// The last day, as year, month and day.
    pub aply_to_dt: Option<String>,
}

/// One application in the answer.
#[derive(Clone, Debug)]
pub struct ResponseItem {}

/// A product as it was applied for.
#[derive(Clone, Debug)]
pub struct ProductBuy {
    /// The name of the product.
    pub name: String,
    /// How much of it, and in which unit.
    pub amount: ProductAmount,
    /// Whether it is entered as an asset.
    pub is_resource: bool,
}

/// An amount with its unit.
#[derive(Clone, Debug)]
pub enum ProductAmount {
    /// A number of pieces.
    EA(usize),
}

} // verus!
