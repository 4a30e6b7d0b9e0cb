//! Direct purchases: the request for the list and the products it holds.

use vstd::prelude::*;

verus! {

/// Where the list of direct purchases is served.
pub const RESOURCE_URI: &'static str = "/zeus/apa/";

/// A request for the direct purchases of a span of days.
#[derive(Clone, Debug, Default)]
pub struct Request {
    /// The first day, as year, month and day.
    pub aply_fr_dt: Option<String>,
    /// The last day, as year, month and day.
    pub aply_to_dt: Option<String>,
}

/// A product of a direct purchase.
#[derive(Clone, Debug)]
pub struct Product {
    pub inner: ProductBuy,
}

/// A product as it was applied for.
#[derive(Clone, Debug)]
pub struct ProductBuy {
    /// The name of the product.
    pub name: String,
    /// How much of it, and in which unit.
    pub amount: ProductAmount,
    /// Whether it is entered as an asset.
    pub is_resource: bool,
}

/// An amount with its unit.
#[derive(Clone, Debug)]
pub enum ProductAmount {
    /// A number of pieces.
    EA(usize),
}

} // verus!
